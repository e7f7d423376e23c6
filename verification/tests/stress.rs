use cpp_watcher::process::RunError;
use cpp_watcher::stress::{
    outputs_equal, Action, Decision, Event, Notice, Phase, Program, Stage, StressEngine,
};
use cpp_watcher::watch::ChangeKind;

type Prog = fn(&str) -> Result<String, RunError>;

fn seed_twice(input: &str) -> Result<String, RunError> {
    Ok(format!("{} {}\n", input, input))
}

fn sum(input: &str) -> Result<String, RunError> {
    let mut total: u128 = 0;
    for word in input.split_whitespace() {
        total += word.parse::<u128>().unwrap();
    }
    Ok(format!("{}\n", total))
}

fn sum_wrong_for_even(input: &str) -> Result<String, RunError> {
    let mut words = input.split_whitespace();
    let seed = words.next().unwrap().parse::<u128>().unwrap();
    let off = if seed % 2 == 0 { 1 } else { 0 };
    Ok(format!("  {}", 2 * seed + off))
}

fn fails_on_three(input: &str) -> Result<String, RunError> {
    if input.trim() == "3" {
        Err(RunError::NonZeroExit { status: "exit status: 1".to_string(), stderr: "no".to_string() })
    } else {
        seed_twice(input)
    }
}

fn wrong_from_five(input: &str) -> Result<String, RunError> {
    let seed = input.split_whitespace().next().unwrap().parse::<u128>().unwrap();
    if seed >= 5 {
        Ok("wrong".to_string())
    } else {
        sum(input)
    }
}

fn start_sweep() -> (StressEngine, Decision) {
    let engine = StressEngine::new(vec![1, 2, 3]);
    let (engine, decision) = engine.step(Event::Start, false);
    assert!(matches!(engine.phase, Phase::Compiling));
    assert!(matches!(decision.action, Action::Compile));
    engine.step(Event::Compiled { candidate: true, generator: true, reference: true }, false)
}

/// Answers runs until the engine asks for something else or `limit` runs were made.
fn drive(
    mut engine: StressEngine,
    mut decision: Decision,
    generator: Prog,
    reference: Prog,
    candidate: Prog,
    limit: usize,
) -> (StressEngine, Decision, Vec<(Program, String)>) {
    let mut runs = Vec::new();
    while runs.len() < limit {
        let (program, input) = match &decision.action {
            Action::Run { program, input } => (*program, input.clone()),
            _ => break,
        };
        let result = match program {
            Program::Generator => generator(&input),
            Program::Reference => reference(&input),
            Program::Candidate => candidate(&input),
        };
        runs.push((program, input));
        let (next, next_decision) = engine.step(Event::Ran { result }, false);
        engine = next;
        decision = next_decision;
    }
    (engine, decision, runs)
}

#[test]
fn a_sweep_starts_with_seed_one() {
    let (engine, decision) = start_sweep();
    assert!(matches!(engine.phase, Phase::Sweeping { seed: 1, stage: Stage::AwaitGenerator }));
    match decision.action {
        Action::Run { program, input } => {
            assert_eq!(program, Program::Generator);
            assert_eq!(input, "1");
        }
        other => panic!("unexpected action {:?}", other),
    }
}

#[test]
fn the_sweep_halts_at_the_first_even_seed() {
    let (engine, decision) = start_sweep();
    let (engine, decision, runs) = drive(engine, decision, seed_twice, sum, sum_wrong_for_even, 100);
    assert!(matches!(engine.phase, Phase::WaitingForChange));
    assert!(matches!(decision.action, Action::Wait));
    match decision.notice {
        Notice::Mismatch { report } => {
            assert_eq!(report.seed, 2);
            assert_eq!(report.generated_input, "2 2\n");
            assert_eq!(report.expected_output, "4\n");
            assert_eq!(report.actual_output, "  5");
        }
        other => panic!("unexpected notice {:?}", other),
    }
    let programs: Vec<Program> = runs.iter().map(|r| r.0).collect();
    assert_eq!(
        programs,
        vec![
            Program::Generator,
            Program::Reference,
            Program::Candidate,
            Program::Generator,
            Program::Reference,
            Program::Candidate
        ]
    );
    assert_eq!(runs[0].1, "1");
    assert_eq!(runs[1].1, "1 1\n");
    assert_eq!(runs[2].1, "1 1\n");
    assert_eq!(runs[3].1, "2");
}

#[test]
fn the_sweep_halts_at_the_seed_where_disagreement_starts() {
    let (engine, decision) = start_sweep();
    let (_, decision, runs) = drive(engine, decision, seed_twice, sum, wrong_from_five, 1000);
    match decision.notice {
        Notice::Mismatch { report } => {
            assert_eq!(report.seed, 5);
            assert_eq!(report.generated_input, "5 5\n");
            assert_eq!(report.expected_output, "10\n");
            assert_eq!(report.actual_output, "wrong");
        }
        other => panic!("unexpected notice {:?}", other),
    }
    assert_eq!(runs.len(), 15);
}

#[test]
fn a_sweep_gives_the_same_mismatch_each_time() {
    let mut seeds = Vec::new();
    for _ in 0..3 {
        let (engine, decision) = start_sweep();
        let (_, decision, _) = drive(engine, decision, seed_twice, sum, wrong_from_five, 1000);
        match decision.notice {
            Notice::Mismatch { report } => seeds.push(report.seed),
            other => panic!("unexpected notice {:?}", other),
        }
    }
    assert_eq!(seeds, vec![5, 5, 5]);
}

#[test]
fn a_sweep_of_agreeing_programs_does_not_halt() {
    let (engine, decision) = start_sweep();
    let (engine, decision, runs) = drive(engine, decision, seed_twice, sum, sum, 300);
    assert_eq!(runs.len(), 300);
    assert!(matches!(engine.phase, Phase::Sweeping { seed: 101, stage: Stage::AwaitGenerator }));
    match decision.action {
        Action::Run { program, input } => {
            assert_eq!(program, Program::Generator);
            assert_eq!(input, "101");
        }
        other => panic!("unexpected action {:?}", other),
    }
    let seeds: Vec<String> =
        runs.iter().filter(|r| r.0 == Program::Generator).map(|r| r.1.clone()).collect();
    for (i, seed) in seeds.iter().enumerate() {
        assert_eq!(*seed, (i + 1).to_string());
    }
}

#[test]
fn a_failed_run_is_reported_and_the_sweep_goes_on() {
    let (engine, decision) = start_sweep();
    let (engine, decision, _) = drive(engine, decision, fails_on_three, sum, sum, 6);
    assert!(matches!(engine.phase, Phase::Sweeping { seed: 3, stage: Stage::AwaitGenerator }));
    let (engine, decision, _) = drive(engine, decision, fails_on_three, sum, sum, 1);
    assert!(matches!(engine.phase, Phase::Sweeping { seed: 4, stage: Stage::AwaitGenerator }));
    match &decision.notice {
        Notice::RunFailed { seed, program, error } => {
            assert_eq!(*seed, 3);
            assert_eq!(*program, Program::Generator);
            assert_eq!(error.message(), "Execution failed: exit status: 1\nStderr: no");
        }
        other => panic!("unexpected notice {:?}", other),
    }
    match &decision.action {
        Action::Run { program, input } => {
            assert_eq!(*program, Program::Generator);
            assert_eq!(input, "4");
        }
        other => panic!("unexpected action {:?}", other),
    }
}

#[test]
fn a_failed_reference_or_candidate_skips_the_seed() {
    let (engine, _) = start_sweep();
    let (engine, _) = engine.step(Event::Ran { result: Ok("in".to_string()) }, false);
    let error = RunError::IoFailure { detail: "pipe".to_string() };
    let (engine, decision) = engine.step(Event::Ran { result: Err(error) }, false);
    assert!(matches!(engine.phase, Phase::Sweeping { seed: 2, stage: Stage::AwaitGenerator }));
    assert!(matches!(
        decision.notice,
        Notice::RunFailed { seed: 1, program: Program::Reference, .. }
    ));
    let (engine, _) = engine.step(Event::Ran { result: Ok("in".to_string()) }, false);
    let (engine, _) = engine.step(Event::Ran { result: Ok("out".to_string()) }, false);
    let error = RunError::IoFailure { detail: "pipe".to_string() };
    let (engine, decision) = engine.step(Event::Ran { result: Err(error) }, false);
    assert!(matches!(engine.phase, Phase::Sweeping { seed: 3, stage: Stage::AwaitGenerator }));
    assert!(matches!(
        decision.notice,
        Notice::RunFailed { seed: 2, program: Program::Candidate, .. }
    ));
}

#[test]
fn outputs_are_compared_trimmed_but_crlf_counts() {
    assert!(outputs_equal("4\n", "  4"));
    assert!(!outputs_equal("a\r\nb", "a\nb"));
    let (engine, _) = start_sweep();
    let (engine, _) = engine.step(Event::Ran { result: Ok("in".to_string()) }, false);
    let (engine, _) = engine.step(Event::Ran { result: Ok("a\r\nb\n".to_string()) }, false);
    let (engine, decision) = engine.step(Event::Ran { result: Ok("a\nb\n".to_string()) }, false);
    assert!(matches!(engine.phase, Phase::WaitingForChange));
    assert!(matches!(decision.notice, Notice::Mismatch { .. }));
}

#[test]
fn a_failed_compilation_skips_the_sweep() {
    let engine = StressEngine::new(vec![0, 0, 0]);
    let (engine, _) = engine.step(Event::Start, false);
    let (engine, decision) =
        engine.step(Event::Compiled { candidate: true, generator: false, reference: true }, false);
    assert!(matches!(engine.phase, Phase::WaitingForChange));
    assert!(matches!(decision.action, Action::Wait));
    assert!(matches!(decision.notice, Notice::CompileFailed));
}

#[test]
fn a_change_starts_the_next_cycle_at_seed_one() {
    let (engine, decision) = start_sweep();
    let (engine, _, _) = drive(engine, decision, seed_twice, sum, sum_wrong_for_even, 100);
    assert!(matches!(engine.phase, Phase::WaitingForChange));
    let (engine, decision) = engine.step(Event::Quiet, false);
    assert!(matches!(engine.phase, Phase::WaitingForChange));
    assert!(matches!(decision.action, Action::Wait));
    let (engine, decision) =
        engine.step(Event::Notified { kind: ChangeKind::Modify, current: vec![1, 2, 3] }, false);
    assert!(matches!(engine.phase, Phase::WaitingForChange));
    assert!(matches!(decision.action, Action::Wait));
    let (engine, decision) =
        engine.step(Event::Notified { kind: ChangeKind::Remove, current: vec![9, 9, 9] }, false);
    assert!(matches!(engine.phase, Phase::WaitingForChange));
    assert!(matches!(decision.action, Action::Wait));
    let (engine, decision) =
        engine.step(Event::Notified { kind: ChangeKind::Modify, current: vec![1, 2, 4] }, false);
    assert!(matches!(engine.phase, Phase::Compiling));
    assert!(matches!(decision.action, Action::Compile));
    assert_eq!(engine.watcher.last_modified, vec![1, 2, 4]);
    let (engine, decision) =
        engine.step(Event::Compiled { candidate: true, generator: true, reference: true }, false);
    assert!(matches!(engine.phase, Phase::Sweeping { seed: 1, stage: Stage::AwaitGenerator }));
    assert!(matches!(decision.action, Action::Run { program: Program::Generator, .. }));
}

#[test]
fn cancellation_ends_the_sweep_and_then_the_engine() {
    let (engine, _) = start_sweep();
    let (engine, decision) = engine.step(Event::Ran { result: Ok("in".to_string()) }, true);
    assert!(matches!(engine.phase, Phase::WaitingForChange));
    assert!(matches!(decision.action, Action::Wait));
    let (engine, decision) = engine.step(Event::Quiet, true);
    assert!(matches!(engine.phase, Phase::Stopped));
    assert!(matches!(decision.action, Action::Stop));
    let (engine, decision) = engine.step(Event::Start, false);
    assert!(matches!(engine.phase, Phase::Stopped));
    assert!(matches!(decision.action, Action::Stop));
}

#[test]
fn a_cancelled_session_does_not_start() {
    let engine = StressEngine::new(vec![]);
    let (engine, decision) = engine.step(Event::Start, true);
    assert!(matches!(engine.phase, Phase::Stopped));
    assert!(matches!(decision.action, Action::Stop));
    let engine = StressEngine::new(vec![]);
    let (engine, _) = engine.step(Event::Start, false);
    let (engine, decision) =
        engine.step(Event::Compiled { candidate: true, generator: true, reference: true }, true);
    assert!(matches!(engine.phase, Phase::WaitingForChange));
    assert!(matches!(decision.action, Action::Wait));
    assert!(matches!(decision.notice, Notice::Nothing));
}

#[test]
fn a_mismatch_is_reported_even_when_cancelled() {
    let (engine, _) = start_sweep();
    let (engine, _) = engine.step(Event::Ran { result: Ok("in".to_string()) }, false);
    let (engine, _) = engine.step(Event::Ran { result: Ok("1".to_string()) }, false);
    let (engine, decision) = engine.step(Event::Ran { result: Ok("2".to_string()) }, true);
    assert!(matches!(engine.phase, Phase::WaitingForChange));
    assert!(matches!(decision.notice, Notice::Mismatch { .. }));
}

#[test]
fn an_event_that_is_not_awaited_changes_nothing() {
    let engine = StressEngine::new(vec![7]);
    let (engine, decision) = engine.step(Event::Quiet, false);
    assert!(matches!(engine.phase, Phase::Idle));
    assert!(matches!(decision.action, Action::Ignore));
    let (engine, _) = start_sweep();
    let (engine, decision) = engine.step(Event::Quiet, false);
    assert!(matches!(engine.phase, Phase::Sweeping { seed: 1, stage: Stage::AwaitGenerator }));
    assert!(matches!(decision.action, Action::Ignore));
    let (engine, decision) =
        engine.step(Event::Compiled { candidate: true, generator: true, reference: true }, false);
    assert!(matches!(engine.phase, Phase::Sweeping { seed: 1, .. }));
    assert!(matches!(decision.action, Action::Ignore));
}

#[test]
fn the_sweep_ends_when_the_seeds_are_used_up() {
    let engine = StressEngine {
        phase: Phase::Sweeping {
            seed: u64::MAX,
            stage: Stage::AwaitCandidate { input: "i".to_string(), expected: "x".to_string() },
        },
        watcher: cpp_watcher::watch::ChangeWatcher::new(vec![]),
    };
    let (engine, decision) = engine.step(Event::Ran { result: Ok("x\n".to_string()) }, false);
    assert!(matches!(engine.phase, Phase::WaitingForChange));
    assert!(matches!(decision.action, Action::Wait));
    assert!(matches!(decision.notice, Notice::SeedsExhausted));
}
