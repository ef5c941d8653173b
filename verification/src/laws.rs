//! Theorems about validation as a whole: which lines and files are accepted, which violation
//! is reported, and that the report depends on nothing but the text.

use crate::engine::data_verdicts;
use crate::engine::file_verdict;
use crate::engine::FileReport;
use crate::engine::is_meta_line;
use crate::engine::lemma_first_violation_stands;
use crate::engine::lemma_unfailed_run_reads_all;
use crate::engine::lines_read;
use crate::engine::missing_header;
use crate::engine::state_after;
use crate::engine::State;
use crate::engine::is_header_position;
use crate::engine::lemma_header_position_unique;
use crate::error_codes::VcfError;
use crate::pattern::regex_matches;
use crate::text::count_of;
use crate::text::lemma_split_len;
use crate::text::split_on;
use crate::vcf_validate::format_verdict;
use crate::vcf_validate::has_empty_piece;
use crate::vcf_validate::has_header_columns;
use crate::vcf_validate::header_verdict;
use crate::vcf_validate::info_entry_verdict;
use crate::vcf_validate::info_entry_verdicts;
use crate::vcf_validate::info_verdict;
use crate::vcf_validate::line_verdict;
use crate::vcf_validate::sample_verdict;
use crate::vcf_validate::sample_verdicts;
use crate::vcf_validate::HEADER_PATTERN;
use crate::vcf_validate::N_FIXED_FIELDS;
use crate::verdict::fails_first_at;
use crate::verdict::first_failure;
use crate::verdict::lemma_first_failure_at;
use crate::verdict::lemma_first_failure_ok;
use crate::vcf_validate::header_columns;
use vstd::prelude::*;

verus! {

/// An INFO field as the format wants it: not empty, and every `;`-separated sub-entry is
/// non-empty and has exactly two `=`-separated parts.
pub open spec fn well_formed_info(info: Seq<char>) -> bool {
    let entries = split_on(info, ';');
    &&& info.len() > 0
    &&& forall|i: int|
        0 <= i < entries.len() ==> (#[trigger] entries[i]).len() > 0 && split_on(
            entries[i],
            '=',
        ).len() == 2
}

/// A FORMAT field as the format wants it: not empty, and no `:`-separated key is empty.
pub open spec fn well_formed_format(format: Seq<char>) -> bool {
    let keys = split_on(format, ':');
    &&& format.len() > 0
    &&& forall|i: int| 0 <= i < keys.len() ==> (#[trigger] keys[i]).len() > 0
}

/// A SAMPLE field as the format wants it: not empty, no `:`-separated value empty, and as
/// many values as the FORMAT field has keys.
pub open spec fn well_formed_sample(sample: Seq<char>, n_format_entries: nat) -> bool {
    let values = split_on(sample, ':');
    &&& sample.len() > 0
    &&& forall|i: int| 0 <= i < values.len() ==> (#[trigger] values[i]).len() > 0
    &&& values.len() == n_format_entries
}

/// A data line as the format wants it, for a header that declares `n_samples` samples.
pub open spec fn well_formed_line(line: Seq<char>, n_samples: nat) -> bool {
    let fields = split_on(line, '\t');
    &&& fields.len() == N_FIXED_FIELDS + n_samples
    &&& well_formed_info(fields[7])
    &&& well_formed_format(fields[8])
    &&& forall|i: int|
        N_FIXED_FIELDS <= i < fields.len() ==> well_formed_sample(
            #[trigger] fields[i],
            split_on(fields[8], ':').len(),
        )
}

/// A header line as the format wants it.
pub open spec fn is_header_line(line: Seq<char>) -> bool {
    regex_matches(HEADER_PATTERN@, line) && has_header_columns(line)
}

/// Whether `lines[h]` is the first line outside the meta block and a header line, and every
/// line after it is a well-formed data line for the header's number of sample columns.
pub open spec fn well_formed_from(lines: Seq<Seq<char>>, h: int) -> bool {
    &&& is_header_position(lines, h)
    &&& is_header_line(lines[h])
    &&& forall|i: int|
        h < i < lines.len() ==> well_formed_line(
            #[trigger] lines[i],
            (split_on(lines[h], '\t').len() - N_FIXED_FIELDS) as nat,
        )
}

/// A file as the format wants it: it has a line outside the meta block, the first such line
/// is a header line, and every line after that is a well-formed data line for the header's
/// number of sample columns.
pub open spec fn well_formed_file(lines: Seq<Seq<char>>) -> bool {
    exists|h: int| well_formed_from(lines, h)
}

/// The header validator accepts exactly the header lines.
pub proof fn lemma_header_accepted_iff_header_line(line: Seq<char>)
    ensures
        header_verdict(line) is Ok <==> is_header_line(line),
        !is_header_line(line) ==> header_verdict(line) == Err::<nat, VcfError>(
            VcfError::IncorrectHeader(line),
        ),
        is_header_line(line) ==> header_verdict(line) == Ok::<nat, VcfError>(
            (split_on(line, '\t').len() - N_FIXED_FIELDS) as nat,
        ) && header_verdict(line)->Ok_0 >= 1,
{
}

/// An INFO sub-entry is accepted exactly when it holds one `=`.
pub proof fn lemma_info_entry_accepted_iff_one_separator(entry: Seq<char>)
    ensures
        info_entry_verdict(entry) is Ok <==> count_of(entry, '=') == 1,
{
    lemma_split_len(entry, '=');
}

/// The INFO validator accepts exactly the well-formed INFO fields.
pub proof fn lemma_info_accepted_iff_well_formed(info: Seq<char>)
    ensures
        info_verdict(info) is Ok <==> well_formed_info(info),
{
    let entries = split_on(info, ';');
    let verdicts = info_entry_verdicts(entries);
    lemma_first_failure_ok(verdicts);
    if info.len() > 0 && !has_empty_piece(entries) {
        if well_formed_info(info) {
            assert forall|j: int| 0 <= j < verdicts.len() implies (#[trigger] verdicts[j]) is Ok by {
                assert(entries[j].len() > 0);
            }
        }
        if info_verdict(info) is Ok {
            assert forall|i: int| 0 <= i < entries.len() implies (#[trigger] entries[i]).len() > 0
                && split_on(entries[i], '=').len() == 2 by {
                assert(verdicts[i] is Ok);
            }
        }
    }
}

/// The FORMAT validator accepts exactly the well-formed FORMAT fields, and then counts the
/// keys.
pub proof fn lemma_format_accepted_iff_well_formed(format: Seq<char>)
    ensures
        format_verdict(format) is Ok <==> well_formed_format(format),
        format_verdict(format) is Ok ==> format_verdict(format)->Ok_0 == split_on(
            format,
            ':',
        ).len(),
{
}

/// The SAMPLE validator accepts exactly the well-formed SAMPLE fields.
pub proof fn lemma_sample_accepted_iff_well_formed(sample: Seq<char>, n_format_entries: nat)
    ensures
        sample_verdict(sample, n_format_entries) is Ok <==> well_formed_sample(
            sample,
            n_format_entries,
        ),
{
}

/// The line validator accepts exactly the well-formed data lines.
pub proof fn lemma_line_accepted_iff_well_formed(line: Seq<char>, n_samples: nat)
    ensures
        line_verdict(line, n_samples) is Ok <==> well_formed_line(line, n_samples),
{
    let fields = split_on(line, '\t');
    lemma_info_accepted_iff_well_formed(fields[7]);
    lemma_format_accepted_iff_well_formed(fields[8]);
    if fields.len() == N_FIXED_FIELDS + n_samples && info_verdict(fields[7]) is Ok
        && format_verdict(fields[8]) is Ok {
        let n = format_verdict(fields[8])->Ok_0;
        let verdicts = sample_verdicts(fields, n);
        lemma_first_failure_ok(verdicts);
        if well_formed_line(line, n_samples) {
            assert forall|j: int| 0 <= j < verdicts.len() implies (#[trigger] verdicts[j]) is Ok by {
                assert(well_formed_sample(fields[N_FIXED_FIELDS + j], n));
            }
        }
        if line_verdict(line, n_samples) is Ok {
            assert forall|i: int| N_FIXED_FIELDS <= i < fields.len() implies well_formed_sample(
                #[trigger] fields[i],
                split_on(fields[8], ':').len(),
            ) by {
                assert(verdicts[i - N_FIXED_FIELDS] is Ok);
            }
        }
    }
}

/// A line whose number of tab-separated fields is not nine plus the number of samples is
/// reported as `IncorrectEntriesNumber`, with the line as the offending text.
pub proof fn lemma_wrong_field_count_rejected(line: Seq<char>, n_samples: nat)
    requires
        split_on(line, '\t').len() != N_FIXED_FIELDS + n_samples,
    ensures
        line_verdict(line, n_samples) == Err::<nat, VcfError>(
            VcfError::IncorrectEntriesNumber(line),
        ),
{
}

/// No validator reports `NoError` as a violation.
pub proof fn lemma_violation_is_an_error(line: Seq<char>, n_samples: nat)
    ensures
        header_verdict(line) matches Err(e) ==> e is IncorrectHeader,
        line_verdict(line, n_samples) matches Err(e) ==> !(e is NoError),
{
    let fields = split_on(line, '\t');
    if fields.len() == N_FIXED_FIELDS + n_samples {
        let entries = split_on(fields[7], ';');
        let info_verdicts = info_entry_verdicts(entries);
        if exists|i: int| fails_first_at(info_verdicts, i) {
            let k = choose|i: int| fails_first_at(info_verdicts, i);
            assert(info_verdicts[k] is Err);
        }
        if info_verdict(fields[7]) is Ok && format_verdict(fields[8]) is Ok {
            let verdicts = sample_verdicts(fields, format_verdict(fields[8])->Ok_0);
            if exists|i: int| fails_first_at(verdicts, i) {
                let k = choose|i: int| fails_first_at(verdicts, i);
                assert(verdicts[k] is Err);
            }
        }
    }
}

/// A file is reported as valid exactly when its run has passed a header line and has not
/// failed since.
pub proof fn lemma_valid_iff_past_header(lines: Seq<Seq<char>>)
    ensures
        file_verdict(lines) is NoError <==> state_after(lines) is HasHeader,
        !(state_after(lines) is Done),
{
    if exists|h: int| is_header_position(lines, h) {
        let h = choose|h: int| is_header_position(lines, h);
        lemma_violation_is_an_error(lines[h], 0);
        if header_verdict(lines[h]) is Ok {
            let n = header_verdict(lines[h])->Ok_0;
            let verdicts = data_verdicts(lines, h, n);
            if first_failure(verdicts) is Err {
                let k = choose|i: int| fails_first_at(verdicts, i);
                assert(fails_first_at(verdicts, k));
                lemma_violation_is_an_error(lines[h + 1 + k], n);
            }
        }
    }
}

/// Every well-formed file is reported as valid, with all of its lines read, and only
/// well-formed files are reported as valid.
pub proof fn lemma_file_accepted_iff_well_formed(lines: Seq<Seq<char>>)
    ensures
        file_verdict(lines) is NoError <==> well_formed_file(lines),
        well_formed_file(lines) ==> lines_read(lines) == lines.len(),
{
    lemma_valid_iff_past_header(lines);
    if !(state_after(lines) is Failed) {
        lemma_unfailed_run_reads_all(lines);
    }
    if exists|h: int| is_header_position(lines, h) {
        let h = choose|h: int| is_header_position(lines, h);
        assert(is_header_position(lines, h));
        assert forall|k: int| is_header_position(lines, k) implies k == h by {
            lemma_header_position_unique(lines, k);
        }
        lemma_header_accepted_iff_header_line(lines[h]);
        if header_verdict(lines[h]) is Ok {
            let n = header_verdict(lines[h])->Ok_0;
            let verdicts = data_verdicts(lines, h, n);
            lemma_first_failure_ok(verdicts);
            if well_formed_file(lines) {
                let w = choose|w: int| well_formed_from(lines, w);
                assert(w == h);
                assert forall|j: int| 0 <= j < verdicts.len() implies (#[trigger] verdicts[j]) is Ok by {
                    assert(well_formed_line(lines[h + 1 + j], n));
                    lemma_line_accepted_iff_well_formed(lines[h + 1 + j], n);
                }
            }
            if file_verdict(lines) is NoError {
                assert forall|i: int| h < i < lines.len() implies well_formed_line(
                    #[trigger] lines[i],
                    n,
                ) by {
                    assert(verdicts[i - h - 1] is Ok);
                    lemma_line_accepted_iff_well_formed(lines[i], n);
                }
                assert(well_formed_from(lines, h));
            }
        } else if well_formed_file(lines) {
            let w = choose|w: int| well_formed_from(lines, w);
            assert(w == h);
        }
    } else if well_formed_file(lines) {
        let w = choose|w: int| well_formed_from(lines, w);
        assert(is_header_position(lines, w));
    }
}

/// The first line outside the meta block of a file is also that of every prefix that holds
/// it, and before it no run has left the meta block.
proof fn lemma_header_position_of_prefix(lines: Seq<Seq<char>>, h: int, k: int)
    requires
        is_header_position(lines, h),
        0 <= k <= lines.len(),
    ensures
        h < k ==> is_header_position(lines.take(k), h),
        k <= h ==> state_after(lines.take(k)) == State::AwaitingHeader,
{
    let prefix = lines.take(k);
    if h < k {
        assert(prefix[h] == lines[h]);
        assert forall|j: int| 0 <= j < h implies is_meta_line(#[trigger] prefix[j]) by {
            assert(prefix[j] == lines[j]);
        }
    } else {
        assert forall|i: int| !is_header_position(prefix, i) by {
            if 0 <= i < k {
                assert(prefix[i] == lines[i]);
            }
        }
    }
}

/// Where the first line outside the meta block is not a header line, the file is reported as
/// `IncorrectHeader` with that line, whatever lines come after it, and none of them is read.
pub proof fn lemma_malformed_header_rejected(lines: Seq<Seq<char>>, h: int)
    requires
        is_header_position(lines, h),
        !is_header_line(lines[h]),
    ensures
        file_verdict(lines) == VcfError::IncorrectHeader(lines[h]),
        lines_read(lines) == h + 1,
{
    lemma_header_position_unique(lines, h);
    let read = lines.take(h + 1);
    lemma_header_position_of_prefix(lines, h, h + 1);
    lemma_header_position_of_prefix(lines, h, h);
    lemma_header_position_unique(read, h);
    assert(read.drop_last() =~= lines.take(h));
    assert(read + lines.skip(h + 1) =~= lines);
    lemma_first_violation_stands(read, lines.skip(h + 1));
}

/// A line with fewer than ten tab-separated columns, with a fixed column misnamed or out of
/// place, or with an empty sample name is not a header line.
pub proof fn lemma_header_line_needs_columns(line: Seq<char>)
    ensures
        split_on(line, '\t').len() <= N_FIXED_FIELDS ==> !is_header_line(line),
        (exists|i: int|
            0 <= i < N_FIXED_FIELDS && split_on(line, '\t')[i] != header_columns()[i])
            ==> !is_header_line(line),
        has_empty_piece(split_on(line, '\t').skip(N_FIXED_FIELDS as int)) ==> !is_header_line(
            line,
        ),
{
    let cols = split_on(line, '\t');
    if cols.len() > N_FIXED_FIELDS {
        if exists|i: int| 0 <= i < N_FIXED_FIELDS && cols[i] != header_columns()[i] {
            let i = choose|i: int|
                0 <= i < N_FIXED_FIELDS && cols[i] != header_columns()[i];
            assert(cols.take(N_FIXED_FIELDS as int)[i] == cols[i]);
        }
        let names = cols.skip(N_FIXED_FIELDS as int);
        if has_empty_piece(names) {
            let i = choose|i: int| 0 <= i < names.len() && (#[trigger] names[i]).len() == 0;
            assert(cols[N_FIXED_FIELDS + i].len() == 0);
        }
    }
}

/// The violation of the earliest data line that has one is the one reported, whatever lines
/// come after it, and none of them is read.
pub proof fn lemma_first_failing_line_reported(lines: Seq<Seq<char>>, h: int, k: int)
    requires
        is_header_position(lines, h),
        header_verdict(lines[h]) is Ok,
        h < k < lines.len(),
        forall|i: int|
            h < i < k ==> line_verdict(#[trigger] lines[i], header_verdict(lines[h])->Ok_0) is Ok,
        line_verdict(lines[k], header_verdict(lines[h])->Ok_0) is Err,
    ensures
        file_verdict(lines) == line_verdict(lines[k], header_verdict(lines[h])->Ok_0)->Err_0,
        lines_read(lines) == k + 1,
{
    let n = header_verdict(lines[h])->Ok_0;
    let read = lines.take(k + 1);
    let passed = lines.take(k);
    lemma_header_position_of_prefix(lines, h, k + 1);
    lemma_header_position_of_prefix(lines, h, k);
    lemma_header_position_unique(read, h);
    lemma_header_position_unique(passed, h);
    assert(read[h] == lines[h] && passed[h] == lines[h]);

    let verdicts = data_verdicts(read, h, n);
    assert(fails_first_at(verdicts, k - h - 1)) by {
        assert(verdicts[k - h - 1] == line_verdict(lines[k], n));
        assert forall|j: int| 0 <= j < k - h - 1 implies (#[trigger] verdicts[j]) is Ok by {
            assert(verdicts[j] == line_verdict(lines[h + 1 + j], n));
        }
    }
    lemma_first_failure_at(verdicts, k - h - 1);

    let earlier = data_verdicts(passed, h, n);
    assert forall|j: int| 0 <= j < earlier.len() implies (#[trigger] earlier[j]) is Ok by {
        assert(earlier[j] == line_verdict(lines[h + 1 + j], n));
    }
    lemma_first_failure_ok(earlier);

    assert(read.drop_last() =~= passed);
    assert(read + lines.skip(k + 1) =~= lines);
    lemma_first_violation_stands(read, lines.skip(k + 1));
}

/// Where every data line before `lines[k]` passes and `lines[k]` has a number of fields other
/// than nine plus the number of samples, the file is reported as `IncorrectEntriesNumber` with
/// that line, whatever lines come after it, and none of them is read.
pub proof fn lemma_wrong_field_count_ends_run(lines: Seq<Seq<char>>, h: int, k: int)
    requires
        is_header_position(lines, h),
        header_verdict(lines[h]) is Ok,
        h < k < lines.len(),
        forall|i: int|
            h < i < k ==> line_verdict(#[trigger] lines[i], header_verdict(lines[h])->Ok_0) is Ok,
        split_on(lines[k], '\t').len() != N_FIXED_FIELDS + header_verdict(lines[h])->Ok_0,
    ensures
        file_verdict(lines) == VcfError::IncorrectEntriesNumber(lines[k]),
        lines_read(lines) == k + 1,
{
    lemma_first_failing_line_reported(lines, h, k);
}

/// A file without a column-header line, that is, one that is empty or holds meta lines only,
/// is reported as `IncorrectHeader`; every line of it is read before that is known, and none
/// is the offending text.
pub proof fn lemma_missing_header_rejected(lines: Seq<Seq<char>>)
    requires
        forall|i: int| 0 <= i < lines.len() ==> is_meta_line(#[trigger] lines[i]),
    ensures
        file_verdict(lines) == missing_header(),
        file_verdict(lines).code() == 3,
        lines_read(lines) == lines.len(),
        !well_formed_file(lines),
{
    assert forall|h: int| !is_header_position(lines, h) by {
        if 0 <= h < lines.len() {
            assert(is_meta_line(lines[h]));
        }
    }
    lemma_unfailed_run_reads_all(lines);
    lemma_file_accepted_iff_well_formed(lines);
}

/// Whatever the file, a missing or malformed header line is reported as `IncorrectHeader`: a
/// file is reported so exactly when it has no line outside the meta block or the first such
/// line is not a header line.
pub proof fn lemma_incorrect_header_iff_no_header_line(lines: Seq<Seq<char>>)
    ensures
        file_verdict(lines) is IncorrectHeader <==> !exists|h: int|
            is_header_position(lines, h) && is_header_line(lines[h]),
{
    if exists|h: int| is_header_position(lines, h) {
        let h = choose|h: int| is_header_position(lines, h);
        assert(is_header_position(lines, h));
        assert forall|k: int| is_header_position(lines, k) implies k == h by {
            lemma_header_position_unique(lines, k);
        }
        lemma_header_accepted_iff_header_line(lines[h]);
        if header_verdict(lines[h]) is Ok {
            let n = header_verdict(lines[h])->Ok_0;
            let verdicts = data_verdicts(lines, h, n);
            if first_failure(verdicts) is Err {
                let k = choose|i: int| fails_first_at(verdicts, i);
                assert(fails_first_at(verdicts, k));
                lemma_data_line_never_incorrect_header(lines[h + 1 + k], n);
            }
        }
    }
}

/// No data line is reported as `IncorrectHeader`.
pub proof fn lemma_data_line_never_incorrect_header(line: Seq<char>, n_samples: nat)
    ensures
        line_verdict(line, n_samples) matches Err(e) ==> !(e is IncorrectHeader),
{
    let fields = split_on(line, '\t');
    if fields.len() == N_FIXED_FIELDS + n_samples {
        let entries = split_on(fields[7], ';');
        let info_verdicts = info_entry_verdicts(entries);
        if exists|i: int| fails_first_at(info_verdicts, i) {
            let k = choose|i: int| fails_first_at(info_verdicts, i);
            assert(info_verdicts[k] is Err);
        }
        if info_verdict(fields[7]) is Ok && format_verdict(fields[8]) is Ok {
            let verdicts = sample_verdicts(fields, format_verdict(fields[8])->Ok_0);
            if exists|i: int| fails_first_at(verdicts, i) {
                let k = choose|i: int| fails_first_at(verdicts, i);
                assert(verdicts[k] is Err);
            }
        }
    }
}

/// Two reports on the same text agree in kind, offending text, code, message and the number
/// of lines read.
pub proof fn lemma_validation_repeatable(
    lines: Seq<Seq<char>>,
    first: FileReport,
    second: FileReport,
)
    requires
        first.describes(lines),
        second.describes(lines),
    ensures
        first.outcome@ == second.outcome@,
        first.outcome@.code() == second.outcome@.code(),
        first.outcome@.message() == second.outcome@.message(),
        first.lines_read == second.lines_read,
{
}

} // verus!
