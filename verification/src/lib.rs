//! Structural validation of Variant Call Format (VCF) text.
//!
//! The crate checks one column-header line and the data lines that follow it,
//! and reports the first structural violation as a [`error_codes::VcfErrorCode`].

pub mod error_codes;
pub mod extension;
pub mod text;
pub mod pattern;
pub mod verdict;
pub mod vcf_validate;
pub mod engine;
pub mod laws;
