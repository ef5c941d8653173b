//! The closed set of outcomes a validation run can report.

use vstd::prelude::*;
use vstd::string::StringExecFns;

verus! {

/// Outcome of a validation run; every failure carries the offending text.
#[derive(Debug, PartialEq, Eq)]
pub enum VcfErrorCode {
    NoError,
    FileNotFound(String),
    FileReadError(String, String),
    IncorrectHeader(String),
    IncorrectEntriesNumber(String),
    EmptyVcfEntry(String),
    EmptyInfoEntry(String),
    IncorrectInfoEntry(String),
    EmptyFormatEntry(String),
    EmptySampleEntry(String),
    IncorrectSampleEntriesNumber(String),
}

/// Mathematical model of a [`VcfErrorCode`]: the same variants over character sequences.
pub enum VcfError {
    NoError,
    FileNotFound(Seq<char>),
    FileReadError(Seq<char>, Seq<char>),
    IncorrectHeader(Seq<char>),
    IncorrectEntriesNumber(Seq<char>),
    EmptyVcfEntry(Seq<char>),
    EmptyInfoEntry(Seq<char>),
    IncorrectInfoEntry(Seq<char>),
    EmptyFormatEntry(Seq<char>),
    EmptySampleEntry(Seq<char>),
    IncorrectSampleEntriesNumber(Seq<char>),
}

impl View for VcfErrorCode {
    type V = VcfError;

    open spec fn view(&self) -> VcfError {
        match self {
            VcfErrorCode::NoError => VcfError::NoError,
            VcfErrorCode::FileNotFound(f) => VcfError::FileNotFound(f@),
            VcfErrorCode::FileReadError(f, m) => VcfError::FileReadError(f@, m@),
            VcfErrorCode::IncorrectHeader(l) => VcfError::IncorrectHeader(l@),
            VcfErrorCode::IncorrectEntriesNumber(l) => VcfError::IncorrectEntriesNumber(l@),
            VcfErrorCode::EmptyVcfEntry(e) => VcfError::EmptyVcfEntry(e@),
            VcfErrorCode::EmptyInfoEntry(e) => VcfError::EmptyInfoEntry(e@),
            VcfErrorCode::IncorrectInfoEntry(e) => VcfError::IncorrectInfoEntry(e@),
            VcfErrorCode::EmptyFormatEntry(e) => VcfError::EmptyFormatEntry(e@),
            VcfErrorCode::EmptySampleEntry(e) => VcfError::EmptySampleEntry(e@),
            VcfErrorCode::IncorrectSampleEntriesNumber(e) => VcfError::IncorrectSampleEntriesNumber(e@),
        }
    }
}

impl VcfError {
    /// The stable numeric code of the outcome; `0` means no error.
    pub open spec fn code(self) -> int {
        match self {
            VcfError::NoError => 0,
            VcfError::FileNotFound(_) => 1,
            VcfError::FileReadError(_, _) => 2,
            VcfError::IncorrectHeader(_) => 3,
            VcfError::IncorrectEntriesNumber(_) => 4,
            VcfError::EmptyVcfEntry(_) => 5,
            VcfError::EmptyInfoEntry(_) => 6,
            VcfError::IncorrectInfoEntry(_) => 7,
            VcfError::EmptyFormatEntry(_) => 8,
            VcfError::EmptySampleEntry(_) => 9,
            VcfError::IncorrectSampleEntriesNumber(_) => 10,
        }
    }

    /// The diagnostic text: a description of the kind, then the offending text.
    pub open spec fn message(self) -> Seq<char> {
        match self {
            VcfError::NoError => "OK"@,
            VcfError::FileNotFound(f) => "File not found: "@ + f,
            VcfError::FileReadError(f, m) => "File reading Cannot read file "@ + f + ": "@ + m,
            VcfError::IncorrectHeader(l) => "Incorrect VCF column header line: "@ + l,
            VcfError::IncorrectEntriesNumber(l) => "Incorrect number of entries: "@ + l,
            VcfError::EmptyVcfEntry(e) => "Empty VCF entry: "@ + e,
            VcfError::EmptyInfoEntry(e) => "Empty INFO entry: "@ + e,
            VcfError::IncorrectInfoEntry(e) => "Incorrectly formatted INFO entry: "@ + e,
            VcfError::EmptyFormatEntry(e) => "Empty FORMAT entry: "@ + e,
            VcfError::EmptySampleEntry(e) => "Empty SAMPLE entry: "@ + e,
            VcfError::IncorrectSampleEntriesNumber(e) => "Incorrect number of FORMAT entries: "@ + e,
        }
    }
}

impl Clone for VcfErrorCode {
    fn clone(&self) -> (copy: Self)
        ensures
            copy@ == self@,
    {
        match self {
            VcfErrorCode::NoError => VcfErrorCode::NoError,
            VcfErrorCode::FileNotFound(f) => VcfErrorCode::FileNotFound(f.clone()),
            VcfErrorCode::FileReadError(f, m) => VcfErrorCode::FileReadError(f.clone(), m.clone()),
            VcfErrorCode::IncorrectHeader(l) => VcfErrorCode::IncorrectHeader(l.clone()),
            VcfErrorCode::IncorrectEntriesNumber(l) => VcfErrorCode::IncorrectEntriesNumber(
                l.clone(),
            ),
            VcfErrorCode::EmptyVcfEntry(e) => VcfErrorCode::EmptyVcfEntry(e.clone()),
            VcfErrorCode::EmptyInfoEntry(e) => VcfErrorCode::EmptyInfoEntry(e.clone()),
            VcfErrorCode::IncorrectInfoEntry(e) => VcfErrorCode::IncorrectInfoEntry(e.clone()),
            VcfErrorCode::EmptyFormatEntry(e) => VcfErrorCode::EmptyFormatEntry(e.clone()),
            VcfErrorCode::EmptySampleEntry(e) => VcfErrorCode::EmptySampleEntry(e.clone()),
            VcfErrorCode::IncorrectSampleEntriesNumber(e) => {
                VcfErrorCode::IncorrectSampleEntriesNumber(e.clone())
            },
        }
    }
}

/// `prefix` followed by `text`, as an owned string.
fn prefixed(prefix: &str, text: &str) -> (s: String)
    ensures
        s@ == prefix@ + text@,
{
    String::from_str(prefix).concat(text)
}

impl VcfErrorCode {
    /// The diagnostic message for this outcome.
    pub fn error_message(&self) -> (msg: String)
        ensures
            msg@ == self@.message(),
    {
        match self {
            VcfErrorCode::NoError => String::from_str("OK"),
            VcfErrorCode::FileNotFound(filename) => prefixed("File not found: ", filename.as_str()),
            VcfErrorCode::FileReadError(filename, message) => {
                prefixed("File reading Cannot read file ", filename.as_str()).concat(": ").concat(
                    message.as_str(),
                )
            },
            VcfErrorCode::IncorrectEntriesNumber(line) => prefixed(
                "Incorrect number of entries: ",
                line.as_str(),
            ),
            VcfErrorCode::IncorrectHeader(line) => prefixed(
                "Incorrect VCF column header line: ",
                line.as_str(),
            ),
            VcfErrorCode::EmptyVcfEntry(entry) => prefixed("Empty VCF entry: ", entry.as_str()),
            VcfErrorCode::EmptyInfoEntry(entry) => prefixed("Empty INFO entry: ", entry.as_str()),
            VcfErrorCode::IncorrectInfoEntry(entry) => prefixed(
                "Incorrectly formatted INFO entry: ",
                entry.as_str(),
            ),
            VcfErrorCode::EmptyFormatEntry(entry) => prefixed(
                "Empty FORMAT entry: ",
                entry.as_str(),
            ),
            VcfErrorCode::EmptySampleEntry(entry) => prefixed(
                "Empty SAMPLE entry: ",
                entry.as_str(),
            ),
            VcfErrorCode::IncorrectSampleEntriesNumber(entry) => prefixed(
                "Incorrect number of FORMAT entries: ",
                entry.as_str(),
            ),
        }
    }

    /// The numeric code for this outcome, usable as a process exit status.
    pub fn error_code(&self) -> (code: i32)
        ensures
            code == self@.code(),
            (code == 0) == (self@ is NoError),
            0 <= code <= 10,
    {
        match self {
            VcfErrorCode::NoError => 0,
            VcfErrorCode::FileNotFound(_) => 1,
            VcfErrorCode::FileReadError(_, _) => 2,
            VcfErrorCode::IncorrectHeader(_) => 3,
            VcfErrorCode::IncorrectEntriesNumber(_) => 4,
            VcfErrorCode::EmptyVcfEntry(_) => 5,
            VcfErrorCode::EmptyInfoEntry(_) => 6,
            VcfErrorCode::IncorrectInfoEntry(_) => 7,
            VcfErrorCode::EmptyFormatEntry(_) => 8,
            VcfErrorCode::EmptySampleEntry(_) => 9,
            VcfErrorCode::IncorrectSampleEntriesNumber(_) => 10,
        }
    }
}

} // verus!
