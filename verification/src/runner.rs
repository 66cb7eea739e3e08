//! One test invocation as a state machine: an optional build first, then the
//! fixtures one at a time, in order, stopping at the first one whose verdict
//! is not `Accepted`. The caller performs each returned action (it spawns
//! the processes) and hands the captured result back.

use vstd::prelude::*;
use crate::config::Language;
use crate::fixtures::Fixture;
use crate::fixtures::fixture_views;
use crate::fixtures::pair_fixtures;
use crate::fixtures::spec_fixtures;
use crate::verdict::FixtureOutcome;
use crate::verdict::RunResult;
use crate::verdict::Verdict;
use crate::verdict::fixture_outcome;
use crate::verdict::spec_outcome;

verus! {

/// What the caller is to do next.
#[derive(Clone, Copy, Debug, PartialEq, Eq, Structural)]
pub enum Action {
    /// Launch the compile command in the solution directory, capturing both
    /// output streams, and report back with `on_compile_finished`.
    RunCompile,
    /// Launch the execute command for the fixture at `index`, with the input
    /// file on standard input and both output streams captured, and report
    /// back with `on_fixture_finished`.
    RunFixture { index: usize },
}

/// How a finished invocation ended.
pub enum RunOutcome {
    /// Every fixture was accepted (or there was none).
    AllPassed,
    /// The compile command exited with failure; its captured standard error
    /// is kept for reporting. No fixture ran.
    CompileFailed { diagnostics: Vec<u8> },
    /// The fixture at `index` got `verdict`, which is not `Accepted`, and
    /// processing stopped there.
    Stopped { index: usize, verdict: Verdict },
    /// The output of the fixture at `index` was not text; the run aborted
    /// with no verdict for it.
    BadOutput { index: usize },
}

/// Where one invocation stands.
pub enum Phase {
    NotStarted,
    AwaitingCompile,
    AwaitingFixture { index: usize },
    Done { outcome: RunOutcome },
}

/// Every verdict in `s` is `Accepted`.
pub open spec fn all_accepted(s: Seq<Verdict>) -> bool {
    forall|i: int| 0 <= i < s.len() ==> s[i] == Verdict::Accepted
}

/// One test invocation: the language profile, the fixtures discovered at the
/// start, the verdicts reported so far (in fixture order), and the phase.
pub struct Session {
    pub profile: Language,
    pub fixtures: Vec<Fixture>,
    pub reports: Vec<Verdict>,
    pub phase: Phase,
}

/// `pre` stood ready to test the fixture after its reports; `post` and `a`
/// either move to that fixture or finish with every fixture accepted.
pub open spec fn entered_testing(pre: Session, post: Session, a: Option<Action>) -> bool {
    if pre.reports@.len() < pre.fixtures@.len() {
        &&& post.phase == (Phase::AwaitingFixture { index: pre.reports@.len() as usize })
        &&& a == Some(Action::RunFixture { index: pre.reports@.len() as usize })
    } else {
        &&& post.phase == (Phase::Done { outcome: RunOutcome::AllPassed })
        &&& a is None
    }
}

impl Session {
    /// The phase agrees with the verdicts reported so far: fixtures are
    /// tested in order, everything before the current fixture was accepted,
    /// a failed build leaves no verdicts, and a stop records the one verdict
    /// that was not `Accepted` as the last.
    pub open spec fn wf(self) -> bool {
        &&& self.reports@.len() <= self.fixtures@.len()
        &&& match self.phase {
            Phase::NotStarted => self.reports@.len() == 0,
            Phase::AwaitingCompile => self.reports@.len() == 0 && self.profile.compile is Some,
            Phase::AwaitingFixture { index } => {
                &&& index as int == self.reports@.len()
                &&& (index as int) < self.fixtures@.len()
                &&& all_accepted(self.reports@)
            },
            Phase::Done { outcome } => match outcome {
                RunOutcome::AllPassed => {
                    &&& self.reports@.len() == self.fixtures@.len()
                    &&& all_accepted(self.reports@)
                },
                RunOutcome::CompileFailed { .. } => self.reports@.len() == 0,
                RunOutcome::Stopped { index, verdict } => {
                    &&& self.reports@.len() == index as int + 1
                    &&& (index as int) < self.fixtures@.len()
                    &&& verdict != Verdict::Accepted
                    &&& self.reports@[index as int] == verdict
                    &&& all_accepted(self.reports@.take(index as int))
                },
                RunOutcome::BadOutput { index } => {
                    &&& self.reports@.len() == index as int
                    &&& (index as int) < self.fixtures@.len()
                    &&& all_accepted(self.reports@)
                },
            },
        }
    }

    /// A fresh invocation over the fixtures paired out of the directory
    /// listing `names`.
    pub fn new(profile: Language, names: &Vec<Vec<u8>>) -> (s: Session)
        ensures
            s.wf(),
            s.phase == Phase::NotStarted,
            s.profile == profile,
            fixture_views(s.fixtures@) == spec_fixtures(names.deep_view()),
            s.reports@.len() == 0,
    {
        Session {
            profile,
            fixtures: pair_fixtures(names),
            reports: Vec::new(),
            phase: Phase::NotStarted,
        }
    }

    /// Number of fixtures of this invocation.
    pub fn fixture_count(&self) -> (n: usize)
        ensures
            n == self.fixtures@.len(),
    {
        self.fixtures.len()
    }

    /// The fixture at `i`.
    pub fn fixture_at(&self, i: usize) -> (f: &Fixture)
        requires
            i < self.fixtures@.len(),
        ensures
            *f == self.fixtures@[i as int],
    {
        &self.fixtures[i]
    }

    /// The compile command, if the language has one.
    pub fn compile_command(&self) -> (r: Option<&String>)
        ensures
            match r {
                Some(c) => self.profile.compile == Some(*c),
                None => self.profile.compile is None,
            },
    {
        self.profile.compile.as_ref()
    }

    /// The execute command.
    pub fn execute_command(&self) -> (r: &String)
        ensures
            *r == self.profile.execute,
    {
        &self.profile.execute
    }

    /// Move to the next fixture, or finish when none is left.
    fn begin_tests(&mut self) -> (a: Option<Action>)
        requires
            old(self).reports@.len() <= old(self).fixtures@.len(),
            all_accepted(old(self).reports@),
        ensures
            final(self).wf(),
            final(self).profile == old(self).profile,
            final(self).fixtures == old(self).fixtures,
            final(self).reports == old(self).reports,
            entered_testing(*old(self), *final(self), a),
    {
        let k = self.reports.len();
        if k < self.fixtures.len() {
            self.phase = Phase::AwaitingFixture { index: k };
            Some(Action::RunFixture { index: k })
        } else {
            self.phase = Phase::Done { outcome: RunOutcome::AllPassed };
            None
        }
    }

    /// Begin the invocation: ask for a build when the language has a compile
    /// command, else go straight to the fixtures.
    pub fn start(&mut self) -> (a: Option<Action>)
        requires
            old(self).wf(),
            old(self).phase == Phase::NotStarted,
        ensures
            final(self).wf(),
            final(self).profile == old(self).profile,
            final(self).fixtures == old(self).fixtures,
            final(self).reports@.len() == 0,
            old(self).profile.compile is Some ==> final(self).phase == Phase::AwaitingCompile && a
                == Some(Action::RunCompile),
            old(self).profile.compile is None ==> entered_testing(
                *old(self),
                *final(self),
                a,
            ),
    {
        if self.profile.compile.is_some() {
            self.phase = Phase::AwaitingCompile;
            Some(Action::RunCompile)
        } else {
            self.begin_tests()
        }
    }

    /// Take the build's result. Failure ends the whole invocation before any
    /// fixture runs, keeping the compiler's diagnostics; success moves on to
    /// the fixtures.
    pub fn on_compile_finished(&mut self, exit_succeeded: bool, diagnostics: Vec<u8>) -> (a: Option<
        Action,
    >)
        requires
            old(self).wf(),
            old(self).phase == Phase::AwaitingCompile,
        ensures
            final(self).wf(),
            final(self).profile == old(self).profile,
            final(self).fixtures == old(self).fixtures,
            final(self).reports@.len() == 0,
            !exit_succeeded ==> final(self).phase == (Phase::Done {
                outcome: RunOutcome::CompileFailed { diagnostics },
            }) && a is None,
            exit_succeeded ==> entered_testing(*old(self), *final(self), a),
    {
        if !exit_succeeded {
            self.phase = Phase::Done { outcome: RunOutcome::CompileFailed { diagnostics } };
            None
        } else {
            self.begin_tests()
        }
    }

    /// Take one fixture's run result and the expected output, record the
    /// verdict, and either continue to the next fixture or stop: an accepted
    /// fixture continues, any other verdict ends the invocation, and output
    /// that is not text aborts it with no verdict.
    pub fn on_fixture_finished(&mut self, run: &RunResult, expected_text: &Vec<u8>) -> (r: (
        FixtureOutcome,
        Option<Action>,
    ))
        requires
            old(self).wf(),
            old(self).phase is AwaitingFixture,
        ensures
            final(self).wf(),
            final(self).profile == old(self).profile,
            final(self).fixtures == old(self).fixtures,
            r.0 == spec_outcome(run.stdout@, run.stderr@, expected_text@),
            r.0 matches FixtureOutcome::Report(v) ==> final(self).reports@ == old(
                self,
            ).reports@.push(v),
            r.0 == FixtureOutcome::Report(Verdict::Accepted) ==> entered_testing(
                Session {
                    reports: final(self).reports,
                    ..*old(self)
                },
                *final(self),
                r.1,
            ),
            r.0 matches FixtureOutcome::Report(v) ==> (v != Verdict::Accepted ==> final(self).phase
                == (Phase::Done {
                outcome: RunOutcome::Stopped {
                    index: old(self).reports@.len() as usize,
                    verdict: v,
                },
            }) && r.1 is None),
            r.0 == FixtureOutcome::InvalidOutput ==> final(self).reports@ == old(self).reports@
                && final(self).phase == (Phase::Done {
                outcome: RunOutcome::BadOutput { index: old(self).reports@.len() as usize },
            }) && r.1 is None,
    {
        let outcome = fixture_outcome(run, expected_text);
        let k = self.reports.len();
        match outcome {
            FixtureOutcome::Report(v) => {
                self.reports.push(v);
                if matches!(v, Verdict::Accepted) {
                    proof {
                        assert(all_accepted(self.reports@));
                    }
                    let a = self.begin_tests();
                    (outcome, a)
                } else {
                    self.phase = Phase::Done {
                        outcome: RunOutcome::Stopped { index: k, verdict: v },
                    };
                    proof {
                        assert(self.reports@.take(k as int) =~= old(self).reports@);
                    }
                    (outcome, None)
                }
            },
            FixtureOutcome::InvalidOutput => {
                self.phase = Phase::Done { outcome: RunOutcome::BadOutput { index: k } };
                (outcome, None)
            },
        }
    }
}

/// A build failure leaves the verdict stream empty: no fixture ever ran in
/// that invocation.
pub proof fn lemma_compile_failure_no_verdicts(s: Session)
    requires
        s.wf(),
        s.phase matches Phase::Done { outcome: RunOutcome::CompileFailed { .. } },
    ensures
        s.reports@.len() == 0,
{
}

/// Processing stops at the first fixture that is not accepted: every earlier
/// fixture was accepted, the stopping fixture's verdict is recorded last,
/// and no verdict follows it.
pub proof fn lemma_stops_at_first_failure(s: Session, index: usize, verdict: Verdict)
    requires
        s.wf(),
        s.phase == (Phase::Done { outcome: RunOutcome::Stopped { index, verdict } }),
    ensures
        verdict != Verdict::Accepted,
        s.reports@.len() == index as int + 1,
        s.reports@[index as int] == verdict,
        forall|j: int| 0 <= j < index as int ==> s.reports@[j] == Verdict::Accepted,
        (index as int) < s.fixtures@.len(),
{
    assert forall|j: int| 0 <= j < index as int implies s.reports@[j] == Verdict::Accepted by {
        assert(s.reports@.take(index as int)[j] == s.reports@[j]);
    }
}

} // verus!
