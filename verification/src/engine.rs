//! The file-level engine: meta lines, then one column-header line, then data lines, read in
//! order; the first violation ends the run, and input that ends before a column-header line
//! was read lacks what the format makes mandatory.
//!
//! [`file_verdict`] says what a whole file is reported as. [`ValidationState`] is the same
//! decision taken one line at a time, for callers that stream their input.

use crate::error_codes::VcfError;
use crate::error_codes::VcfErrorCode;
use crate::vcf_validate::header_verdict;
use crate::vcf_validate::line_verdict;
use crate::vcf_validate::validate_vcf_cols_header;
use crate::vcf_validate::validate_vcf_line;
use crate::verdict::first_failure;
use crate::verdict::lemma_first_failure_ok;
use crate::verdict::lemma_first_failure_push;
use crate::verdict::Verdict;
use vstd::prelude::*;

verus! {

/// Whether `line` belongs to the meta block, that is, starts with `##`.
pub open spec fn is_meta_line(line: Seq<char>) -> bool {
    line.len() >= 2 && line[0] == '#' && line[1] == '#'
}

/// Whether `lines[h]` is the first line outside the meta block.
pub open spec fn is_header_position(lines: Seq<Seq<char>>, h: int) -> bool {
    &&& 0 <= h < lines.len()
    &&& !is_meta_line(lines[h])
    &&& forall|j: int| 0 <= j < h ==> is_meta_line(#[trigger] lines[j])
}

/// The verdicts on the lines after the header at `h`, in order, for `n_samples` samples.
pub open spec fn data_verdicts(lines: Seq<Seq<char>>, h: int, n_samples: nat) -> Seq<Verdict> {
    Seq::new(
        (lines.len() - h - 1) as nat,
        |i: int| line_verdict(lines[h + 1 + i], n_samples),
    )
}

/// Where a run over `lines` stands once all of them are read.
pub open spec fn state_after(lines: Seq<Seq<char>>) -> State {
    if exists|h: int| is_header_position(lines, h) {
        let h = choose|h: int| is_header_position(lines, h);
        match header_verdict(lines[h]) {
            Err(e) => State::Failed(e),
            Ok(n) => match first_failure(data_verdicts(lines, h, n)) {
                Err(e) => State::Failed(e),
                Ok(_) => State::HasHeader(n),
            },
        }
    } else {
        State::AwaitingHeader
    }
}

/// What a whole file is reported as: `IncorrectHeader` without offending text where no line
/// stands outside the meta block, for the column-header line is then missing; else the
/// violation of the header line; else the violation of the earliest data line that has one;
/// else no error.
pub open spec fn file_verdict(lines: Seq<Seq<char>>) -> VcfError {
    state_after(lines).finished().outcome()
}

/// What is reported where the input ends before any column-header line: no line is at fault,
/// so the offending text is empty.
pub open spec fn missing_header() -> VcfError {
    VcfError::IncorrectHeader(Seq::<char>::empty())
}

/// How many lines of a file a run reads: a line is read unless a line before it violated the
/// format.
pub open spec fn lines_read(lines: Seq<Seq<char>>) -> nat
    decreases lines.len(),
{
    if lines.len() == 0 {
        0
    } else if state_after(lines.drop_last()) is Failed {
        lines_read(lines.drop_last())
    } else {
        lines.len()
    }
}

/// Mathematical model of a [`ValidationState`].
pub enum State {
    AwaitingHeader,
    HasHeader(nat),
    Failed(VcfError),
    Done,
}

impl State {
    /// The state after reading `line` in this state. `Failed` and `Done` are terminal.
    pub open spec fn next(self, line: Seq<char>) -> State {
        match self {
            State::AwaitingHeader => if is_meta_line(line) {
                State::AwaitingHeader
            } else {
                match header_verdict(line) {
                    Ok(n) => State::HasHeader(n),
                    Err(e) => State::Failed(e),
                }
            },
            State::HasHeader(n) => match line_verdict(line, n) {
                Ok(_) => State::HasHeader(n),
                Err(e) => State::Failed(e),
            },
            State::Failed(e) => State::Failed(e),
            State::Done => State::Done,
        }
    }

    /// The state after reading all of `lines`, in order, from this state.
    pub open spec fn run(self, lines: Seq<Seq<char>>) -> State
        decreases lines.len(),
    {
        if lines.len() == 0 {
            self
        } else {
            self.run(lines.drop_last()).next(lines.last())
        }
    }

    /// The state once the input is exhausted: a run still waiting for its header line has
    /// failed for want of one, a run past its header is done.
    pub open spec fn finished(self) -> State {
        match self {
            State::AwaitingHeader => State::Failed(missing_header()),
            State::HasHeader(_) => State::Done,
            State::Failed(e) => State::Failed(e),
            State::Done => State::Done,
        }
    }

    /// The violation this state carries, or `NoError` where it carries none (yet).
    pub open spec fn outcome(self) -> VcfError {
        match self {
            State::Failed(e) => e,
            _ => VcfError::NoError,
        }
    }
}

/// Progress of a validation run that reads its input line by line.
#[derive(Debug)]
pub enum ValidationState {
    /// No line outside the meta block has been read yet.
    AwaitingHeader,
    /// The header line declared this many samples; data lines are being checked.
    HasHeader(usize),
    /// A line violated the format; nothing read later changes that.
    Failed(VcfErrorCode),
    /// The input ended after a header line and without a violation.
    Done,
}

impl View for ValidationState {
    type V = State;

    open spec fn view(&self) -> State {
        match self {
            ValidationState::AwaitingHeader => State::AwaitingHeader,
            ValidationState::HasHeader(n) => State::HasHeader(*n as nat),
            ValidationState::Failed(e) => State::Failed(e@),
            ValidationState::Done => State::Done,
        }
    }
}

/// The character sequences of a sequence of lines.
pub open spec fn line_texts(lines: Seq<String>) -> Seq<Seq<char>> {
    Seq::new(lines.len(), |i: int| lines[i]@)
}

/// Whether `line` starts with `##`.
pub fn starts_meta(line: &str) -> (meta: bool)
    ensures
        meta == is_meta_line(line@),
{
    broadcast use vstd::string::group_string_axioms;

    let mut it = line.chars();
    let first = it.next();
    let second = it.next();
    match (first, second) {
        (Some(a), Some(b)) => a == '#' && b == '#',
        _ => false,
    }
}

impl ValidationState {
    /// The state of a run that has read nothing.
    pub fn new() -> (state: ValidationState)
        ensures
            state@ == State::AwaitingHeader,
    {
        ValidationState::AwaitingHeader
    }

    /// Reads one line.
    pub fn step(self, line: &str) -> (next: ValidationState)
        ensures
            next@ == self@.next(line@),
    {
        match self {
            ValidationState::AwaitingHeader => {
                if starts_meta(line) {
                    ValidationState::AwaitingHeader
                } else {
                    match validate_vcf_cols_header(line) {
                        Ok(n_samples) => ValidationState::HasHeader(n_samples),
                        Err(e) => ValidationState::Failed(e),
                    }
                }
            },
            ValidationState::HasHeader(n_samples) => {
                match validate_vcf_line(line, n_samples) {
                    Ok(_) => ValidationState::HasHeader(n_samples),
                    Err(e) => ValidationState::Failed(e),
                }
            },
            ValidationState::Failed(e) => ValidationState::Failed(e),
            ValidationState::Done => ValidationState::Done,
        }
    }

    /// Ends the run. Input that ended before a header line was read fails as
    /// `IncorrectHeader` with no offending text; a run past its header becomes `Done`.
    pub fn finish(self) -> (end: ValidationState)
        ensures
            end@ == self@.finished(),
    {
        match self {
            ValidationState::AwaitingHeader => ValidationState::Failed(
                VcfErrorCode::IncorrectHeader(String::new()),
            ),
            ValidationState::HasHeader(_) => ValidationState::Done,
            ValidationState::Failed(e) => ValidationState::Failed(e),
            ValidationState::Done => ValidationState::Done,
        }
    }

    /// Whether a violation has been found.
    pub fn is_failed(&self) -> (failed: bool)
        ensures
            failed == (self@ is Failed),
    {
        match self {
            ValidationState::Failed(_) => true,
            _ => false,
        }
    }

    /// The violation found, or `NoError` where none was found (yet).
    pub fn into_outcome(self) -> (outcome: VcfErrorCode)
        ensures
            outcome@ == self@.outcome(),
    {
        match self {
            ValidationState::Failed(e) => e,
            _ => VcfErrorCode::NoError,
        }
    }
}

/// What validating a whole file found, and how far it read.
#[derive(Debug)]
pub struct FileReport {
    /// The first violation, or `NoError`.
    pub outcome: VcfErrorCode,
    /// The number of lines read: up to and including the offending line, or all of them.
    pub lines_read: usize,
}

impl FileReport {
    /// Whether this is the report on the file made of `lines`.
    pub open spec fn describes(&self, lines: Seq<Seq<char>>) -> bool {
        &&& self.outcome@ == file_verdict(lines)
        &&& self.lines_read == lines_read(lines)
    }
}

/// Validates a whole file given as its lines, without their terminators. Reading stops at
/// the first violation.
pub fn validate_lines(lines: &Vec<String>) -> (report: FileReport)
    ensures
        report.describes(line_texts(lines@)),
{
    let ghost texts = line_texts(lines@);
    let mut state = ValidationState::new();
    let mut i: usize = 0;
    assert(texts.take(0) =~= Seq::<Seq<char>>::empty());
    while i < lines.len() && !state.is_failed()
        invariant
            i <= lines.len(),
            texts == line_texts(lines@),
            state@ == state_after(texts.take(i as int)),
            i == lines_read(texts.take(i as int)),
        decreases lines.len() - i,
    {
        state = state.step(lines[i].as_str());
        proof {
            assert(texts.take(i + 1).drop_last() =~= texts.take(i as int));
            assert(texts.take(i + 1).last() == lines@[i as int]@);
            lemma_state_after_push(texts.take(i as int), lines@[i as int]@);
            assert(texts.take(i as int).push(lines@[i as int]@) =~= texts.take(i + 1));
        }
        i = i + 1;
    }
    proof {
        if state@ is Failed {
            assert(texts =~= texts.take(i as int) + texts.skip(i as int));
            lemma_first_violation_stands(texts.take(i as int), texts.skip(i as int));
        } else {
            assert(texts.take(i as int) =~= texts);
        }
    }
    FileReport { outcome: state.finish().into_outcome(), lines_read: i }
}

/// A failed run stays failed whatever is read next.
pub proof fn lemma_failed_is_terminal(e: VcfError, lines: Seq<Seq<char>>)
    ensures
        State::Failed(e).run(lines) == State::Failed(e),
    decreases lines.len(),
{
    if lines.len() > 0 {
        lemma_failed_is_terminal(e, lines.drop_last());
    }
}

/// Reading `a` and then `b` is reading `a + b`.
pub proof fn lemma_run_concat(state: State, a: Seq<Seq<char>>, b: Seq<Seq<char>>)
    ensures
        state.run(a + b) == state.run(a).run(b),
    decreases b.len(),
{
    if b.len() == 0 {
        assert(a + b =~= a);
    } else {
        assert((a + b).drop_last() =~= a + b.drop_last());
        assert((a + b).last() == b.last());
        lemma_run_concat(state, a, b.drop_last());
    }
}

/// At most one line is the first outside the meta block.
pub proof fn lemma_header_position_unique(lines: Seq<Seq<char>>, h: int)
    requires
        is_header_position(lines, h),
    ensures
        (choose|k: int| is_header_position(lines, k)) == h,
{
    let k = choose|k: int| is_header_position(lines, k);
    assert(is_header_position(lines, k));
    if k < h {
        assert(is_meta_line(lines[k]));
    }
    if h < k {
        assert(is_meta_line(lines[h]));
    }
}

/// Reading one more line moves [`state_after`] as [`State::next`] says.
pub proof fn lemma_state_after_push(lines: Seq<Seq<char>>, last: Seq<char>)
    ensures
        state_after(lines.push(last)) == state_after(lines).next(last),
{
    let longer = lines.push(last);
    if exists|h: int| is_header_position(lines, h) {
        let h = choose|h: int| is_header_position(lines, h);
        assert(is_header_position(lines, h));
        assert(is_header_position(longer, h)) by {
            assert(longer[h] == lines[h]);
            assert forall|j: int| 0 <= j < h implies is_meta_line(#[trigger] longer[j]) by {
                assert(longer[j] == lines[j]);
            }
        }
        lemma_header_position_unique(longer, h);
        assert(longer[h] == lines[h]);
        match header_verdict(lines[h]) {
            Err(e) => {},
            Ok(n) => {
                assert(data_verdicts(longer, h, n) =~= data_verdicts(lines, h, n).push(
                    line_verdict(last, n),
                ));
                lemma_first_failure_push(data_verdicts(lines, h, n), line_verdict(last, n));
                lemma_first_failure_ok(data_verdicts(lines, h, n));
                lemma_first_failure_ok(data_verdicts(longer, h, n));
            },
        }
    } else {
        let n = lines.len() as int;
        if is_meta_line(last) {
            assert forall|h: int| !is_header_position(longer, h) by {
                if is_header_position(longer, h) {
                    if h < n {
                        assert(longer[h] == lines[h]);
                        assert forall|j: int| 0 <= j < h implies is_meta_line(
                            #[trigger] lines[j],
                        ) by {
                            assert(longer[j] == lines[j]);
                        }
                        assert(is_header_position(lines, h));
                    }
                }
            }
        } else {
            assert(is_header_position(longer, n)) by {
                assert forall|j: int| 0 <= j < n implies is_meta_line(#[trigger] longer[j]) by {
                    assert(longer[j] == lines[j]);
                    if !is_meta_line(lines[j]) {
                        lemma_non_meta_has_first(lines, j);
                    }
                }
            }
            lemma_header_position_unique(longer, n);
            match header_verdict(last) {
                Err(e) => {},
                Ok(k) => {
                    assert(data_verdicts(longer, n, k) =~= Seq::<Verdict>::empty());
                    lemma_first_failure_ok(data_verdicts(longer, n, k));
                },
            }
        }
    }
}

/// Where some line is outside the meta block, one of them is the first.
proof fn lemma_non_meta_has_first(lines: Seq<Seq<char>>, i: int)
    requires
        0 <= i < lines.len(),
        !is_meta_line(lines[i]),
    ensures
        exists|h: int| 0 <= h <= i && is_header_position(lines, h),
    decreases i,
{
    if exists|j: int| 0 <= j < i && !is_meta_line(#[trigger] lines[j]) {
        let j = choose|j: int| 0 <= j < i && !is_meta_line(#[trigger] lines[j]);
        lemma_non_meta_has_first(lines, j);
        let h = choose|h: int| 0 <= h <= j && is_header_position(lines, h);
        assert(0 <= h <= i && is_header_position(lines, h));
    } else {
        assert(is_header_position(lines, i));
    }
}

/// Reading a file line by line from the start arrives where [`state_after`] says.
pub proof fn lemma_run_is_state_after(lines: Seq<Seq<char>>)
    ensures
        State::AwaitingHeader.run(lines) == state_after(lines),
    decreases lines.len(),
{
    if lines.len() == 0 {
        assert forall|h: int| !is_header_position(lines, h) by {}
    } else {
        lemma_run_is_state_after(lines.drop_last());
        lemma_state_after_push(lines.drop_last(), lines.last());
        assert(lines.drop_last().push(lines.last()) =~= lines);
    }
}

/// The violation found in a file stands whatever lines follow it, and none of them is read.
pub proof fn lemma_first_violation_stands(lines: Seq<Seq<char>>, rest: Seq<Seq<char>>)
    requires
        state_after(lines) is Failed,
    ensures
        state_after(lines + rest) == state_after(lines),
        file_verdict(lines + rest) == file_verdict(lines),
        lines_read(lines + rest) == lines_read(lines),
    decreases rest.len(),
{
    lemma_run_is_state_after(lines);
    lemma_run_is_state_after(lines + rest);
    lemma_run_concat(State::AwaitingHeader, lines, rest);
    let e = state_after(lines)->Failed_0;
    lemma_failed_is_terminal(e, rest);
    if rest.len() == 0 {
        assert(lines + rest =~= lines);
    } else {
        lemma_first_violation_stands(lines, rest.drop_last());
        assert((lines + rest).drop_last() =~= lines + rest.drop_last());
    }
}

/// A run that ends without a violation has read every line.
pub proof fn lemma_unfailed_run_reads_all(lines: Seq<Seq<char>>)
    requires
        !(state_after(lines) is Failed),
    ensures
        lines_read(lines) == lines.len(),
{
    if lines.len() > 0 {
        if state_after(lines.drop_last()) is Failed {
            lemma_first_violation_stands(lines.drop_last(), seq![lines.last()]);
            assert(lines.drop_last() + seq![lines.last()] =~= lines);
        }
    }
}

} // verus!
