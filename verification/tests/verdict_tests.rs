use oj_assist::verdict::{compare_output, fixture_outcome, FixtureOutcome, RunResult, Verdict};

fn run(stdout: &[u8], stderr: &[u8], exit_succeeded: bool) -> RunResult {
    RunResult { stdout: stdout.to_vec(), stderr: stderr.to_vec(), exit_succeeded }
}

#[test]
fn prefix_match_is_accepted() {
    // The actual output stops early but agrees line by line.
    assert!(compare_output(&b"3\n4\n".to_vec(), &b"3\n4\n5\n".to_vec()));
    let r = run(b"3\n4\n", b"", true);
    assert_eq!(fixture_outcome(&r, &b"3\n4\n5\n".to_vec()), FixtureOutcome::Report(Verdict::Accepted));
}

#[test]
fn mismatched_line_is_failed() {
    assert!(!compare_output(&b"1\n3\n".to_vec(), &b"1\n2\n".to_vec()));
    let r = run(b"1\n3\n", b"", true);
    assert_eq!(fixture_outcome(&r, &b"1\n2\n".to_vec()), FixtureOutcome::Report(Verdict::Failed));
}

#[test]
fn extra_lines_are_failed() {
    assert!(!compare_output(&b"1\n2\n3\n".to_vec(), &b"1\n2\n".to_vec()));
    let r = run(b"1\n2\n3\n", b"", true);
    assert_eq!(fixture_outcome(&r, &b"1\n2\n".to_vec()), FixtureOutcome::Report(Verdict::Failed));
}

#[test]
fn exact_match_is_accepted() {
    assert!(compare_output(&b"1\n2\n".to_vec(), &b"1\n2\n".to_vec()));
}

#[test]
fn empty_output_is_accepted() {
    assert!(compare_output(&b"".to_vec(), &b"1\n2\n".to_vec()));
    assert!(compare_output(&b"".to_vec(), &b"".to_vec()));
}

#[test]
fn trailing_newline_is_not_sensitive() {
    assert!(compare_output(&b"1".to_vec(), &b"1\n".to_vec()));
    assert!(compare_output(&b"1\n".to_vec(), &b"1".to_vec()));
    assert!(compare_output(&b"1\r\n2\r\n".to_vec(), &b"1\n2\n".to_vec()));
}

#[test]
fn stderr_forces_runtime_error() {
    // Correct stdout and a successful exit do not help: one byte on stderr
    // is a runtime error.
    let r = run(b"1\n2\n", b"x", true);
    assert_eq!(fixture_outcome(&r, &b"1\n2\n".to_vec()), FixtureOutcome::Report(Verdict::RuntimeError));
}

#[test]
fn exit_status_is_not_consulted() {
    // A failing exit status with silent stderr still goes to the comparison.
    let r = run(b"1\n".to_vec().as_slice(), b"", false);
    assert_eq!(fixture_outcome(&r, &b"1\n".to_vec()), FixtureOutcome::Report(Verdict::Accepted));
}

#[test]
fn non_text_output_aborts() {
    let r = run(&[0xff, 0xfe], b"", true);
    assert_eq!(fixture_outcome(&r, &b"1\n".to_vec()), FixtureOutcome::InvalidOutput);
    // The same bytes on a valid text stream would have been compared.
    let ok = run(b"1\n", b"", true);
    assert_eq!(fixture_outcome(&ok, &b"1\n".to_vec()), FixtureOutcome::Report(Verdict::Accepted));
}
