use oj_assist::config::Language;
use oj_assist::runner::{Action, Phase, RunOutcome, Session};
use oj_assist::verdict::{FixtureOutcome, RunResult, Verdict};

fn compiled_language() -> Language {
    Language {
        source: b"main.cpp".to_vec(),
        compile: Some(String::from("g++ main.cpp -o main")),
        execute: String::from("./main"),
    }
}

fn interpreted_language() -> Language {
    Language {
        source: b"main.py".to_vec(),
        compile: None,
        execute: String::from("python3 main.py"),
    }
}

fn listing(names: &[&[u8]]) -> Vec<Vec<u8>> {
    names.iter().map(|n| n.to_vec()).collect()
}

fn ok_run(stdout: &[u8]) -> RunResult {
    RunResult { stdout: stdout.to_vec(), stderr: Vec::new(), exit_succeeded: true }
}

#[test]
fn compile_failure_runs_no_fixture() {
    let names = listing(&[b"a.in", b"a.out", b"b.in", b"b.out"]);
    let mut session = Session::new(compiled_language(), &names);
    let first = session.start();
    assert_eq!(first, Some(Action::RunCompile));
    // The compiler exits with failure: the invocation ends at once, keeping
    // the diagnostics, and the verdict stream stays empty.
    let next = session.on_compile_finished(false, b"boom".to_vec());
    assert_eq!(next, None);
    assert_eq!(session.reports.len(), 0);
    match &session.phase {
        Phase::Done { outcome: RunOutcome::CompileFailed { diagnostics } } => {
            assert_eq!(diagnostics, &b"boom".to_vec());
        }
        _ => panic!("expected a compile failure"),
    }
}

#[test]
fn compile_success_moves_to_first_fixture() {
    let names = listing(&[b"a.in", b"a.out"]);
    let mut session = Session::new(compiled_language(), &names);
    assert_eq!(session.start(), Some(Action::RunCompile));
    let next = session.on_compile_finished(true, Vec::new());
    assert_eq!(next, Some(Action::RunFixture { index: 0 }));
}

#[test]
fn stops_at_first_failed_fixture() {
    // Three fixtures: the first is accepted, the second fails, the third is
    // never asked for.
    let names = listing(&[b"a.in", b"a.out", b"b.in", b"b.out", b"c.in", b"c.out"]);
    let mut session = Session::new(interpreted_language(), &names);
    assert_eq!(session.start(), Some(Action::RunFixture { index: 0 }));
    let (outcome, next) = session.on_fixture_finished(&ok_run(b"1\n"), &b"1\n".to_vec());
    assert_eq!(outcome, FixtureOutcome::Report(Verdict::Accepted));
    assert_eq!(next, Some(Action::RunFixture { index: 1 }));
    let (outcome, next) = session.on_fixture_finished(&ok_run(b"2\n"), &b"3\n".to_vec());
    assert_eq!(outcome, FixtureOutcome::Report(Verdict::Failed));
    assert_eq!(next, None);
    assert_eq!(session.reports, vec![Verdict::Accepted, Verdict::Failed]);
    match session.phase {
        Phase::Done { outcome: RunOutcome::Stopped { index, verdict } } => {
            assert_eq!(index, 1);
            assert_eq!(verdict, Verdict::Failed);
        }
        _ => panic!("expected a stop at the second fixture"),
    }
}

#[test]
fn runtime_error_stops_processing() {
    let names = listing(&[b"a.in", b"a.out", b"b.in", b"b.out"]);
    let mut session = Session::new(interpreted_language(), &names);
    assert_eq!(session.start(), Some(Action::RunFixture { index: 0 }));
    let noisy = RunResult {
        stdout: b"1\n".to_vec(),
        stderr: b"traceback".to_vec(),
        exit_succeeded: true,
    };
    let (outcome, next) = session.on_fixture_finished(&noisy, &b"1\n".to_vec());
    assert_eq!(outcome, FixtureOutcome::Report(Verdict::RuntimeError));
    assert_eq!(next, None);
    assert_eq!(session.reports, vec![Verdict::RuntimeError]);
}

#[test]
fn all_fixtures_accepted_passes() {
    let names = listing(&[b"a.in", b"a.out", b"b.in", b"b.out"]);
    let mut session = Session::new(interpreted_language(), &names);
    assert_eq!(session.fixture_count(), 2);
    assert_eq!(session.start(), Some(Action::RunFixture { index: 0 }));
    assert_eq!(session.fixture_at(0).stem, b"a".to_vec());
    let (_, next) = session.on_fixture_finished(&ok_run(b"1\n"), &b"1\n2\n".to_vec());
    assert_eq!(next, Some(Action::RunFixture { index: 1 }));
    let (_, next) = session.on_fixture_finished(&ok_run(b"2\n"), &b"2\n".to_vec());
    assert_eq!(next, None);
    assert!(matches!(session.phase, Phase::Done { outcome: RunOutcome::AllPassed }));
    assert_eq!(session.reports, vec![Verdict::Accepted, Verdict::Accepted]);
}

#[test]
fn no_fixtures_passes_immediately() {
    let names = listing(&[b"main.py"]);
    let mut session = Session::new(interpreted_language(), &names);
    assert_eq!(session.start(), None);
    assert!(matches!(session.phase, Phase::Done { outcome: RunOutcome::AllPassed }));
}

#[test]
fn non_text_output_aborts_without_verdict() {
    let names = listing(&[b"a.in", b"a.out"]);
    let mut session = Session::new(interpreted_language(), &names);
    assert_eq!(session.start(), Some(Action::RunFixture { index: 0 }));
    let bad = RunResult { stdout: vec![0xff, 0xfe], stderr: Vec::new(), exit_succeeded: true };
    let (outcome, next) = session.on_fixture_finished(&bad, &b"1\n".to_vec());
    assert_eq!(outcome, FixtureOutcome::InvalidOutput);
    assert_eq!(next, None);
    assert_eq!(session.reports.len(), 0);
    assert!(matches!(session.phase, Phase::Done { outcome: RunOutcome::BadOutput { index: 0 } }));
}

#[test]
fn commands_come_from_the_profile() {
    let names = listing(&[]);
    let session = Session::new(compiled_language(), &names);
    assert_eq!(session.compile_command(), Some(&String::from("g++ main.cpp -o main")));
    assert_eq!(session.execute_command(), &String::from("./main"));
}
