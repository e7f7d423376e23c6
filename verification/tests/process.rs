use cpp_watcher::process::{compile_outcome, compiler_arguments, Captured, CompileOutcome, RunError};

fn captured(success: bool, stdout: &str, stderr: &str) -> Captured {
    Captured {
        success,
        status: "exit status: 1".to_string(),
        stdout: stdout.to_string(),
        stderr: stderr.to_string(),
    }
}

#[test]
fn a_successful_run_gives_its_output() {
    let out = captured(true, "42\n", "a warning").outcome().unwrap();
    assert_eq!(out, "42\n");
}

#[test]
fn a_failed_run_gives_status_and_error_output() {
    let err = captured(false, "partial", "  bad input \n").outcome().unwrap_err();
    match &err {
        RunError::NonZeroExit { status, stderr } => {
            assert_eq!(status, "exit status: 1");
            assert_eq!(stderr, "  bad input \n");
        }
        other => panic!("unexpected error {:?}", other),
    }
    assert_eq!(err.message(), "Execution failed: exit status: 1\nStderr: bad input");
}

#[test]
fn run_errors_read_as_messages() {
    let spawn = RunError::SpawnFailed {
        program: "/tmp/prog".to_string(),
        detail: "No such file or directory".to_string(),
    };
    assert_eq!(spawn.message(), "Failed to spawn '/tmp/prog': No such file or directory");
    let io = RunError::IoFailure { detail: "Failed to read stdout: broken pipe".to_string() };
    assert_eq!(io.message(), "Failed to read stdout: broken pipe");
}

#[test]
fn shown_output_is_trimmed_and_empty_output_is_left_out() {
    let shown = captured(true, "  hello \n", " \n").shown();
    assert_eq!(shown.output.as_deref(), Some("hello"));
    assert_eq!(shown.error, None);
    assert_eq!(shown.failure, None);
    let shown = captured(false, "\n", "oops\n").shown();
    assert_eq!(shown.output, None);
    assert_eq!(shown.error.as_deref(), Some("oops"));
    assert_eq!(shown.failure.as_deref(), Some("Execution failed: exit status: 1"));
}

#[test]
fn compile_outcome_tells_failure_warnings_and_success_apart() {
    assert!(matches!(compile_outcome(true, ""), CompileOutcome::Clean));
    match compile_outcome(true, " warning: unused \n") {
        CompileOutcome::Warnings { diagnostics } => assert_eq!(diagnostics, "warning: unused"),
        other => panic!("unexpected outcome {:?}", other),
    }
    match compile_outcome(false, "error: x\n") {
        CompileOutcome::Failed { diagnostics } => assert_eq!(diagnostics, "error: x"),
        other => panic!("unexpected outcome {:?}", other),
    }
    assert!(matches!(compile_outcome(false, ""), CompileOutcome::Failed { .. }));
    assert!(compile_outcome(true, "w").usable());
    assert!(compile_outcome(true, "").usable());
    assert!(!compile_outcome(false, "").usable());
}

#[test]
fn compiler_arguments_are_fixed_flags_and_the_two_paths() {
    assert_eq!(
        compiler_arguments("sol.cpp", "/tmp/out"),
        vec!["-std=c++17", "-Wall", "-Wextra", "-O2", "-lm", "-o", "/tmp/out", "sol.cpp"]
    );
}
