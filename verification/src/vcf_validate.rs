//! Validators for the column-header line and for data lines.
//!
//! Every validator is specified by a spec function from the text it inspects to a [`Verdict`];
//! the executable function returns exactly that verdict.

use crate::error_codes::VcfError;
use crate::error_codes::VcfErrorCode;
use crate::pattern::regex_is_match;
use crate::pattern::regex_matches;
use crate::text::same_text;
use crate::text::split;
use crate::text::split_on;
use crate::text::texts;
use crate::verdict::first_failure;
use crate::verdict::lemma_first_failure_at;
use crate::verdict::lemma_first_failure_ok;
use crate::verdict::verdict_of;
use crate::verdict::Verdict;
use vstd::prelude::*;
use vstd::string::StringExecFns;

verus! {

/// Number of fixed columns that precede the sample columns.
pub const N_FIXED_FIELDS: usize = 9;

/// The column-header line as a regular expression: the nine fixed column names, then one or
/// more sample names made of word characters, all separated by tabs.
pub const HEADER_PATTERN: &'static str =
    r"^#CHROM\tPOS\tID\tREF\tALT\tQUAL\tFILTER\tINFO\tFORMAT(\t\w+)+$";

/// Whether some piece is the empty text.
pub open spec fn has_empty_piece(pieces: Seq<Seq<char>>) -> bool {
    exists|i: int| 0 <= i < pieces.len() && (#[trigger] pieces[i]).len() == 0
}

/// Verdict on one `;`-separated INFO sub-entry: it must consist of exactly two `=`-separated
/// parts.
pub open spec fn info_entry_verdict(entry: Seq<char>) -> Verdict {
    if split_on(entry, '=').len() == 2 {
        Ok(0)
    } else {
        Err(VcfError::IncorrectInfoEntry(entry))
    }
}

/// The verdicts on the sub-entries of an INFO field, in order.
pub open spec fn info_entry_verdicts(entries: Seq<Seq<char>>) -> Seq<Verdict> {
    Seq::new(entries.len(), |i: int| info_entry_verdict(entries[i]))
}

/// Verdict on an INFO field.
pub open spec fn info_verdict(info: Seq<char>) -> Verdict {
    let entries = split_on(info, ';');
    if info.len() == 0 {
        Err(VcfError::EmptyVcfEntry(info))
    } else if has_empty_piece(entries) {
        Err(VcfError::EmptyInfoEntry(info))
    } else {
        first_failure(info_entry_verdicts(entries))
    }
}

/// Verdict on a FORMAT field; success carries the number of keys.
pub open spec fn format_verdict(format: Seq<char>) -> Verdict {
    let keys = split_on(format, ':');
    if format.len() == 0 {
        Err(VcfError::EmptyVcfEntry(format))
    } else if has_empty_piece(keys) {
        Err(VcfError::EmptyFormatEntry(format))
    } else {
        Ok(keys.len())
    }
}

/// Verdict on a SAMPLE field, given the number of keys its FORMAT field declares.
pub open spec fn sample_verdict(sample: Seq<char>, n_format_entries: nat) -> Verdict {
    let values = split_on(sample, ':');
    if sample.len() == 0 {
        Err(VcfError::EmptyVcfEntry(sample))
    } else if has_empty_piece(values) {
        Err(VcfError::EmptySampleEntry(sample))
    } else if values.len() != n_format_entries {
        Err(VcfError::IncorrectSampleEntriesNumber(sample))
    } else {
        Ok(0)
    }
}

/// The verdicts on the sample columns of a data line, in order.
pub open spec fn sample_verdicts(fields: Seq<Seq<char>>, n_format_entries: nat) -> Seq<Verdict> {
    Seq::new(
        (fields.len() - N_FIXED_FIELDS) as nat,
        |i: int| sample_verdict(fields[N_FIXED_FIELDS + i], n_format_entries),
    )
}

/// Verdict on a data line of a file whose header declares `n_samples` samples.
pub open spec fn line_verdict(line: Seq<char>, n_samples: nat) -> Verdict {
    let fields = split_on(line, '\t');
    if fields.len() != N_FIXED_FIELDS + n_samples {
        Err(VcfError::IncorrectEntriesNumber(line))
    } else if info_verdict(fields[7]) is Err {
        info_verdict(fields[7])
    } else if format_verdict(fields[8]) is Err {
        format_verdict(fields[8])
    } else {
        first_failure(sample_verdicts(fields, format_verdict(fields[8])->Ok_0))
    }
}

/// The nine fixed column names of the header line, in order.
pub open spec fn header_columns() -> Seq<Seq<char>> {
    seq!["#CHROM"@, "POS"@, "ID"@, "REF"@, "ALT"@, "QUAL"@, "FILTER"@, "INFO"@, "FORMAT"@]
}

/// Whether the tab-separated columns of `line` are the nine fixed names, in order, followed
/// by at least one sample name, none of them empty.
pub open spec fn has_header_columns(line: Seq<char>) -> bool {
    let cols = split_on(line, '\t');
    &&& cols.len() > N_FIXED_FIELDS
    &&& cols.take(N_FIXED_FIELDS as int) == header_columns()
    &&& forall|i: int| N_FIXED_FIELDS <= i < cols.len() ==> (#[trigger] cols[i]).len() > 0
}

/// Verdict on a header line, given whether [`HEADER_PATTERN`] matched it: success carries the
/// number of sample columns.
pub open spec fn header_verdict_given(line: Seq<char>, matched: bool) -> Verdict {
    if matched && has_header_columns(line) {
        Ok((split_on(line, '\t').len() - N_FIXED_FIELDS) as nat)
    } else {
        Err(VcfError::IncorrectHeader(line))
    }
}

/// Verdict on a header line.
pub open spec fn header_verdict(line: Seq<char>) -> Verdict {
    header_verdict_given(line, regex_matches(HEADER_PATTERN@, line))
}

/// Whether any of `pieces` is empty.
fn any_empty(pieces: &Vec<&str>) -> (found: bool)
    ensures
        found == has_empty_piece(texts(pieces@)),
{
    let mut i: usize = 0;
    while i < pieces.len()
        invariant
            i <= pieces.len(),
            forall|j: int| 0 <= j < i ==> (#[trigger] texts(pieces@)[j]).len() > 0,
        decreases pieces.len() - i,
    {
        if pieces[i].is_empty() {
            assert(texts(pieces@)[i as int].len() == 0);
            return true;
        }
        i = i + 1;
    }
    false
}

/// Checks one INFO sub-entry: exactly one `=` must separate a key from a value.
pub fn validate_vcf_format_entry(entry_str: &str) -> (res: Result<usize, VcfErrorCode>)
    ensures
        verdict_of(res) == info_entry_verdict(entry_str@),
{
    let fields = split(entry_str, '=');
    if fields.len() != 2 {
        return Err(VcfErrorCode::IncorrectInfoEntry(String::from_str(entry_str)));
    }
    Ok(0)
}

/// Checks an INFO field: non-empty, no empty sub-entry between `;`, every sub-entry of the
/// form `KEY=VALUE`.
pub fn validate_vcf_info(info_str: &str) -> (res: Result<usize, VcfErrorCode>)
    ensures
        verdict_of(res) == info_verdict(info_str@),
{
    if info_str.is_empty() {
        return Err(VcfErrorCode::EmptyVcfEntry(String::from_str(info_str)));
    }
    let fields = split(info_str, ';');
    if any_empty(&fields) {
        return Err(VcfErrorCode::EmptyInfoEntry(String::from_str(info_str)));
    }
    let ghost verdicts = info_entry_verdicts(split_on(info_str@, ';'));
    let mut i: usize = 0;
    while i < fields.len()
        invariant
            i <= fields.len(),
            texts(fields@) == split_on(info_str@, ';'),
            info_str@.len() > 0,
            !has_empty_piece(split_on(info_str@, ';')),
            verdicts == info_entry_verdicts(split_on(info_str@, ';')),
            forall|j: int| 0 <= j < i ==> (#[trigger] verdicts[j]) is Ok,
        decreases fields.len() - i,
    {
        let checked = validate_vcf_format_entry(fields[i]);
        assert(verdict_of(checked) == verdicts[i as int]) by {
            assert(texts(fields@)[i as int] == fields@[i as int]@);
        }
        match checked {
            Ok(_) => {},
            Err(e) => {
                proof {
                    lemma_first_failure_at(verdicts, i as int);
                }
                return Err(e);
            },
        }
        i = i + 1;
    }
    proof {
        lemma_first_failure_ok(verdicts);
    }
    Ok(0)
}

/// Checks a FORMAT field: non-empty, no empty key between `:`. Returns the number of keys.
pub fn validate_vcf_format(format_str: &str) -> (res: Result<usize, VcfErrorCode>)
    ensures
        verdict_of(res) == format_verdict(format_str@),
{
    if format_str.is_empty() {
        return Err(VcfErrorCode::EmptyVcfEntry(String::from_str(format_str)));
    }
    let fields = split(format_str, ':');
    if any_empty(&fields) {
        return Err(VcfErrorCode::EmptyFormatEntry(String::from_str(format_str)));
    }
    Ok(fields.len())
}

/// Checks a SAMPLE field: non-empty, no empty value between `:`, as many values as the FORMAT
/// field has keys.
pub fn validate_vcf_sample(sample_str: &str, n_format_entries: usize) -> (res: Result<
    usize,
    VcfErrorCode,
>)
    ensures
        verdict_of(res) == sample_verdict(sample_str@, n_format_entries as nat),
{
    if sample_str.is_empty() {
        return Err(VcfErrorCode::EmptyVcfEntry(String::from_str(sample_str)));
    }
    let fields = split(sample_str, ':');
    if any_empty(&fields) {
        return Err(VcfErrorCode::EmptySampleEntry(String::from_str(sample_str)));
    }
    if fields.len() != n_format_entries {
        return Err(VcfErrorCode::IncorrectSampleEntriesNumber(String::from_str(sample_str)));
    }
    Ok(0)
}

/// Checks a data line against the sample count that the header declared: exactly
/// `9 + n_samples` tab-separated fields, then the INFO field, the FORMAT field and every SAMPLE
/// field in order, stopping at the first violation.
pub fn validate_vcf_line(line: &str, n_samples: usize) -> (res: Result<usize, VcfErrorCode>)
    ensures
        verdict_of(res) == line_verdict(line@, n_samples as nat),
{
    let fields = split(line, '\t');
    if fields.len() < N_FIXED_FIELDS || fields.len() - N_FIXED_FIELDS != n_samples {
        return Err(VcfErrorCode::IncorrectEntriesNumber(String::from_str(line)));
    }
    assert(texts(fields@)[7] == fields@[7]@);
    assert(texts(fields@)[8] == fields@[8]@);
    match validate_vcf_info(fields[7]) {
        Ok(_) => {},
        Err(e) => {
            return Err(e);
        },
    }
    let n_format_entries = match validate_vcf_format(fields[8]) {
        Ok(n) => n,
        Err(e) => {
            return Err(e);
        },
    };
    let ghost verdicts = sample_verdicts(split_on(line@, '\t'), n_format_entries as nat);
    let mut i: usize = N_FIXED_FIELDS;
    while i < fields.len()
        invariant
            N_FIXED_FIELDS <= i <= fields.len(),
            texts(fields@) == split_on(line@, '\t'),
            fields.len() == N_FIXED_FIELDS + n_samples,
            info_verdict(split_on(line@, '\t')[7]) is Ok,
            format_verdict(split_on(line@, '\t')[8]) == Ok::<nat, VcfError>(
                n_format_entries as nat,
            ),
            verdicts == sample_verdicts(split_on(line@, '\t'), n_format_entries as nat),
            forall|j: int| 0 <= j < i - N_FIXED_FIELDS ==> (#[trigger] verdicts[j]) is Ok,
        decreases fields.len() - i,
    {
        let checked = validate_vcf_sample(fields[i], n_format_entries);
        assert(verdict_of(checked) == verdicts[i - N_FIXED_FIELDS]) by {
            assert(texts(fields@)[i as int] == fields@[i as int]@);
        }
        match checked {
            Ok(_) => {},
            Err(e) => {
                proof {
                    lemma_first_failure_at(verdicts, i - N_FIXED_FIELDS);
                }
                return Err(e);
            },
        }
        i = i + 1;
    }
    proof {
        lemma_first_failure_ok(verdicts);
    }
    Ok(0)
}

/// Whether the tab-separated columns are the fixed names followed by non-empty sample names.
fn check_header_columns(cols: &Vec<&str>) -> (ok: bool)
    ensures
        ok == {
            &&& cols.len() > N_FIXED_FIELDS
            &&& texts(cols@).take(N_FIXED_FIELDS as int) == header_columns()
            &&& forall|i: int|
                N_FIXED_FIELDS <= i < cols.len() ==> (#[trigger] texts(cols@)[i]).len() > 0
        },
{
    if cols.len() <= N_FIXED_FIELDS {
        return false;
    }
    let names: [&str; 9] = ["#CHROM", "POS", "ID", "REF", "ALT", "QUAL", "FILTER", "INFO", "FORMAT"];
    assert(names@ == seq!["#CHROM", "POS", "ID", "REF", "ALT", "QUAL", "FILTER", "INFO", "FORMAT"]);
    let mut i: usize = 0;
    while i < N_FIXED_FIELDS
        invariant
            i <= N_FIXED_FIELDS < cols.len(),
            forall|j: int| 0 <= j < 9 ==> (#[trigger] names@[j])@ == header_columns()[j],
            forall|j: int| 0 <= j < i ==> (#[trigger] texts(cols@)[j]) == header_columns()[j],
        decreases N_FIXED_FIELDS - i,
    {
        if !same_text(cols[i], names[i]) {
            assert(texts(cols@).take(N_FIXED_FIELDS as int)[i as int] != header_columns()[i as int]);
            return false;
        }
        i = i + 1;
    }
    assert(texts(cols@).take(N_FIXED_FIELDS as int) =~= header_columns());
    while i < cols.len()
        invariant
            N_FIXED_FIELDS <= i <= cols.len(),
            forall|j: int| N_FIXED_FIELDS <= j < i ==> (#[trigger] texts(cols@)[j]).len() > 0,
        decreases cols.len() - i,
    {
        if cols[i].is_empty() {
            assert(texts(cols@)[i as int].len() == 0);
            return false;
        }
        i = i + 1;
    }
    true
}

/// Decides on a header line once it is known whether [`HEADER_PATTERN`] matched it: on
/// success the number of sample columns, else `IncorrectHeader` with the line.
pub fn header_sample_count(line: &str, matched: bool) -> (res: Result<usize, VcfErrorCode>)
    ensures
        verdict_of(res) == header_verdict_given(line@, matched),
{
    if !matched {
        return Err(VcfErrorCode::IncorrectHeader(String::from_str(line)));
    }
    let cols = split(line, '\t');
    if !check_header_columns(&cols) {
        return Err(VcfErrorCode::IncorrectHeader(String::from_str(line)));
    }
    Ok(cols.len() - N_FIXED_FIELDS)
}

/// Checks the column-header line and returns the number of samples it declares.
pub fn validate_vcf_cols_header(line: &str) -> (res: Result<usize, VcfErrorCode>)
    ensures
        verdict_of(res) == header_verdict(line@),
{
    let matched = regex_is_match(HEADER_PATTERN, line);
    header_sample_count(line, matched)
}

} // verus!
