//! Per-fixture verdicts: the truncation-tolerant prefix comparison of the
//! solution's output against the expected output, and the rule that any
//! bytes on standard error override the comparison.

use vstd::prelude::*;
use crate::bytes::bytes_eq;
use crate::lines::line_seq;
use crate::lines::split_lines;

verus! {

/// Outcome of one fixture, as reported to the user.
#[derive(Clone, Copy, Debug, PartialEq, Eq, Structural)]
pub enum Verdict {
    Accepted,
    Failed,
    RuntimeError,
}

/// What one process invocation produced: captured output streams and whether
/// its exit status was success.
pub struct RunResult {
    pub stdout: Vec<u8>,
    pub stderr: Vec<u8>,
    pub exit_succeeded: bool,
}

/// The lenient matching rule: the actual lines are accepted when every line
/// actually printed equals the expected line at the same position, which
/// forces the actual line count not to exceed the expected one.
pub open spec fn prefix_accepted(actual: Seq<Seq<u8>>, expected: Seq<Seq<u8>>) -> bool {
    &&& actual.len() <= expected.len()
    &&& forall|i: int| 0 <= i < actual.len() ==> actual[i] == expected[i]
}

/// Whether `std::str::from_utf8` accepts these bytes as text.
pub uninterp spec fn is_utf8(bytes: Seq<u8>) -> bool;

/// Relies on std::str::from_utf8: it returns `Ok` exactly on valid UTF-8,
/// which depends on the bytes alone.
#[verifier::external_body]
fn utf8_valid(bytes: &Vec<u8>) -> (r: bool)
    ensures
        r == is_utf8(bytes@),
{
    std::str::from_utf8(bytes.as_slice()).is_ok()
}

/// Whether the actual output lines are accepted against the expected ones.
fn lines_match(actual: &Vec<Vec<u8>>, expected: &Vec<Vec<u8>>) -> (r: bool)
    ensures
        r == prefix_accepted(actual.deep_view(), expected.deep_view()),
{
    if actual.len() > expected.len() {
        return false;
    }
    let mut i: usize = 0;
    while i < actual.len()
        invariant
            i <= actual@.len() <= expected@.len(),
            forall|j: int| 0 <= j < i ==> actual.deep_view()[j] == expected.deep_view()[j],
        decreases actual.len() - i,
    {
        proof {
            assert(actual.deep_view()[i as int] =~= actual@[i as int]@);
            assert(expected.deep_view()[i as int] =~= expected@[i as int]@);
        }
        if !bytes_eq(&actual[i], &expected[i]) {
            return false;
        }
        i += 1;
    }
    true
}

/// Whether `actual_text`, compared line by line, is accepted against
/// `expected_text` under the prefix rule.
pub fn compare_output(actual_text: &Vec<u8>, expected_text: &Vec<u8>) -> (r: bool)
    ensures
        r == prefix_accepted(line_seq(actual_text@), line_seq(expected_text@)),
{
    let actual = split_lines(actual_text);
    let expected = split_lines(expected_text);
    lines_match(&actual, &expected)
}

/// What running one fixture leads to: a verdict to report, or an abort
/// because the solution's output was not text.
#[derive(Clone, Copy, Debug, PartialEq, Eq, Structural)]
pub enum FixtureOutcome {
    Report(Verdict),
    InvalidOutput,
}

/// The verdict rule for one fixture run. Any bytes on standard error mean a
/// runtime error, whatever the exit status or the output; otherwise output
/// that is not text aborts the run; otherwise the prefix comparison decides.
pub open spec fn spec_outcome(stdout: Seq<u8>, stderr: Seq<u8>, expected: Seq<u8>) -> FixtureOutcome {
    if stderr.len() > 0 {
        FixtureOutcome::Report(Verdict::RuntimeError)
    } else if !is_utf8(stdout) {
        FixtureOutcome::InvalidOutput
    } else if prefix_accepted(line_seq(stdout), line_seq(expected)) {
        FixtureOutcome::Report(Verdict::Accepted)
    } else {
        FixtureOutcome::Report(Verdict::Failed)
    }
}

/// Decide one fixture from what its process produced and the expected
/// output. The exit status is never consulted.
pub fn fixture_outcome(run: &RunResult, expected_text: &Vec<u8>) -> (r: FixtureOutcome)
    ensures
        r == spec_outcome(run.stdout@, run.stderr@, expected_text@),
{
    if run.stderr.len() > 0 {
        return FixtureOutcome::Report(Verdict::RuntimeError);
    }
    if !utf8_valid(&run.stdout) {
        return FixtureOutcome::InvalidOutput;
    }
    if compare_output(&run.stdout, expected_text) {
        FixtureOutcome::Report(Verdict::Accepted)
    } else {
        FixtureOutcome::Report(Verdict::Failed)
    }
}

/// A full prefix match is accepted: when the actual lines are no more than
/// the expected ones and agree with them position by position, the verdict
/// of a run with silent standard error is `Accepted`.
pub proof fn lemma_prefix_match_accepted(stdout: Seq<u8>, expected: Seq<u8>)
    requires
        line_seq(stdout).len() <= line_seq(expected).len(),
        forall|i: int|
            0 <= i < line_seq(stdout).len() ==> line_seq(stdout)[i] == line_seq(expected)[i],
    ensures
        prefix_accepted(line_seq(stdout), line_seq(expected)),
        is_utf8(stdout) ==> spec_outcome(stdout, Seq::empty(), expected) == FixtureOutcome::Report(
            Verdict::Accepted,
        ),
{
}

/// A mismatch within the printed lines fails: when some actual line differs
/// from the expected line at the same position, the verdict of a run with
/// silent standard error is `Failed`.
pub proof fn lemma_line_mismatch_failed(stdout: Seq<u8>, expected: Seq<u8>, i: int)
    requires
        0 <= i < line_seq(stdout).len(),
        i < line_seq(expected).len(),
        line_seq(stdout)[i] != line_seq(expected)[i],
    ensures
        !prefix_accepted(line_seq(stdout), line_seq(expected)),
        is_utf8(stdout) ==> spec_outcome(stdout, Seq::empty(), expected) == FixtureOutcome::Report(
            Verdict::Failed,
        ),
{
}

/// Extra lines fail: printing more lines than the expected output has is
/// never accepted, so the verdict of a run with silent standard error is
/// `Failed`.
pub proof fn lemma_extra_lines_failed(stdout: Seq<u8>, expected: Seq<u8>)
    requires
        line_seq(stdout).len() > line_seq(expected).len(),
    ensures
        !prefix_accepted(line_seq(stdout), line_seq(expected)),
        is_utf8(stdout) ==> spec_outcome(stdout, Seq::empty(), expected) == FixtureOutcome::Report(
            Verdict::Failed,
        ),
{
}

/// Standard-error output forces a runtime error: any bytes at all on
/// standard error give `RuntimeError`, whatever the output holds and
/// whatever the exit status was.
pub proof fn lemma_stderr_forces_runtime_error(stdout: Seq<u8>, stderr: Seq<u8>, expected: Seq<u8>)
    requires
        stderr.len() > 0,
    ensures
        spec_outcome(stdout, stderr, expected) == FixtureOutcome::Report(Verdict::RuntimeError),
{
}

} // verus!
