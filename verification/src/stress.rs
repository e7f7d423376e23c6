//! The stress-testing engine: a candidate is compared with a reference on
//! inputs that a generator makes from seeds 1, 2, 3, ...
//!
//! The engine is a state machine. The caller compiles, runs programs and
//! polls the watcher as the engine asks, and hands each outcome back as an
//! event, together with whether the session was cancelled.

use crate::process::{run_result_view, RunError, RunErrorView};
use crate::text::{decimal, decimal_string, trim, trim_text};
use crate::watch::{is_change, ChangeKind, ChangeWatcher};
use vstd::prelude::*;

verus! {

/// One of the three programs of a stress test.
#[derive(Clone, Copy, Debug, PartialEq, Eq, Structural)]
pub enum Program {
    Generator,
    Reference,
    Candidate,
}

/// The seed at which reference and candidate disagree, with what was
/// captured for it.
#[derive(Debug)]
pub struct MismatchReport {
    pub seed: u64,
    pub generated_input: String,
    pub expected_output: String,
    pub actual_output: String,
}

/// A mismatch report as plain values.
pub struct MismatchReportView {
    pub seed: u64,
    pub generated_input: Seq<char>,
    pub expected_output: Seq<char>,
    pub actual_output: Seq<char>,
}

impl View for MismatchReport {
    type V = MismatchReportView;

    open spec fn view(&self) -> MismatchReportView {
        MismatchReportView {
            seed: self.seed,
            generated_input: self.generated_input@,
            expected_output: self.expected_output@,
            actual_output: self.actual_output@,
        }
    }
}

/// How far the work on the current seed has come.
#[derive(Debug)]
pub enum Stage {
    /// The generator was asked for the input of this seed.
    AwaitGenerator,
    /// The reference runs on the generated input.
    AwaitReference { input: String },
    /// The candidate runs on the generated input.
    AwaitCandidate { input: String, expected: String },
}

/// A stage as plain values.
pub enum StageView {
    AwaitGenerator,
    AwaitReference { input: Seq<char> },
    AwaitCandidate { input: Seq<char>, expected: Seq<char> },
}

impl StageView {
    /// The program whose run the stage waits for.
    pub open spec fn program(self) -> Program {
        match self {
            StageView::AwaitGenerator => Program::Generator,
            StageView::AwaitReference { .. } => Program::Reference,
            StageView::AwaitCandidate { .. } => Program::Candidate,
        }
    }
}

impl View for Stage {
    type V = StageView;

    open spec fn view(&self) -> StageView {
        match self {
            Stage::AwaitGenerator => StageView::AwaitGenerator,
            Stage::AwaitReference { input } => StageView::AwaitReference { input: input@ },
            Stage::AwaitCandidate { input, expected } => StageView::AwaitCandidate {
                input: input@,
                expected: expected@,
            },
        }
    }
}

/// The state of the engine.
#[derive(Debug)]
pub enum Phase {
    Idle,
    /// The three sources are being compiled.
    Compiling,
    /// A sweep is under way and has come to `seed`.
    Sweeping { seed: u64, stage: Stage },
    WaitingForChange,
    Stopped,
}

/// A phase as plain values.
pub enum PhaseView {
    Idle,
    Compiling,
    Sweeping { seed: u64, stage: StageView },
    WaitingForChange,
    Stopped,
}

impl View for Phase {
    type V = PhaseView;

    open spec fn view(&self) -> PhaseView {
        match self {
            Phase::Idle => PhaseView::Idle,
            Phase::Compiling => PhaseView::Compiling,
            Phase::Sweeping { seed, stage } => PhaseView::Sweeping { seed: *seed, stage: stage@ },
            Phase::WaitingForChange => PhaseView::WaitingForChange,
            Phase::Stopped => PhaseView::Stopped,
        }
    }
}

/// The engine: its phase, and the modification times it remembers of the
/// candidate, the generator and the reference source.
#[derive(Debug)]
pub struct StressEngine {
    pub phase: Phase,
    pub watcher: ChangeWatcher,
}

/// An engine as plain values.
pub struct EngineView {
    pub phase: PhaseView,
    pub last_modified: Seq<u128>,
}

impl View for StressEngine {
    type V = EngineView;

    open spec fn view(&self) -> EngineView {
        EngineView { phase: self.phase@, last_modified: self.watcher@ }
    }
}

/// What the caller reports to the engine.
#[derive(Debug)]
pub enum Event {
    /// The session begins.
    Start,
    /// The three compilations ended; each flag says whether one succeeded.
    Compiled { candidate: bool, generator: bool, reference: bool },
    /// The run that the engine asked for ended.
    Ran { result: Result<String, RunError> },
    /// The watcher reported an event; `current` holds the fresh modification
    /// times of the three sources.
    Notified { kind: ChangeKind, current: Vec<u128> },
    /// The watcher reported nothing within the poll interval.
    Quiet,
}

/// An event as plain values.
pub enum EventView {
    Start,
    Compiled { candidate: bool, generator: bool, reference: bool },
    Ran { result: Result<Seq<char>, RunErrorView> },
    Notified { kind: ChangeKind, current: Seq<u128> },
    Quiet,
}

impl View for Event {
    type V = EventView;

    open spec fn view(&self) -> EventView {
        match self {
            Event::Start => EventView::Start,
            Event::Compiled { candidate, generator, reference } => EventView::Compiled {
                candidate: *candidate,
                generator: *generator,
                reference: *reference,
            },
            Event::Ran { result } => EventView::Ran { result: run_result_view(*result) },
            Event::Notified { kind, current } => EventView::Notified {
                kind: *kind,
                current: current@,
            },
            Event::Quiet => EventView::Quiet,
        }
    }
}

/// What the caller is to do next.
#[derive(Debug)]
pub enum Action {
    /// Compile the three sources and report `Compiled`.
    Compile,
    /// Run `program` with `input` as its whole standard input and report
    /// `Ran`.
    Run { program: Program, input: String },
    /// Poll the watcher once and report `Notified` or `Quiet`.
    Wait,
    /// Release what is held and leave.
    Stop,
    /// The event was not awaited: go on as before.
    Ignore,
}

/// An action as plain values.
pub enum ActionView {
    Compile,
    Run { program: Program, input: Seq<char> },
    Wait,
    Stop,
    Ignore,
}

impl View for Action {
    type V = ActionView;

    open spec fn view(&self) -> ActionView {
        match self {
            Action::Compile => ActionView::Compile,
            Action::Run { program, input } => ActionView::Run { program: *program, input: input@ },
            Action::Wait => ActionView::Wait,
            Action::Stop => ActionView::Stop,
            Action::Ignore => ActionView::Ignore,
        }
    }
}

/// What the caller is to tell the user.
#[derive(Debug)]
pub enum Notice {
    Nothing,
    /// A source did not compile: no sweep in this cycle.
    CompileFailed,
    /// A run for `seed` failed: the sweep goes on with the next seed.
    RunFailed { seed: u64, program: Program, error: RunError },
    /// Reference and candidate disagree: the sweep ends here.
    Mismatch { report: MismatchReport },
    /// The last seed there is was used without a mismatch.
    SeedsExhausted,
}

/// A notice as plain values.
pub enum NoticeView {
    Nothing,
    CompileFailed,
    RunFailed { seed: u64, program: Program, error: RunErrorView },
    Mismatch { report: MismatchReportView },
    SeedsExhausted,
}

impl View for Notice {
    type V = NoticeView;

    open spec fn view(&self) -> NoticeView {
        match self {
            Notice::Nothing => NoticeView::Nothing,
            Notice::CompileFailed => NoticeView::CompileFailed,
            Notice::RunFailed { seed, program, error } => NoticeView::RunFailed {
                seed: *seed,
                program: *program,
                error: error@,
            },
            Notice::Mismatch { report } => NoticeView::Mismatch { report: report@ },
            Notice::SeedsExhausted => NoticeView::SeedsExhausted,
        }
    }
}

/// What the engine decided on an event.
#[derive(Debug)]
pub struct Decision {
    pub action: Action,
    pub notice: Notice,
}

/// A decision as plain values.
pub struct DecisionView {
    pub action: ActionView,
    pub notice: NoticeView,
}

impl View for Decision {
    type V = DecisionView;

    open spec fn view(&self) -> DecisionView {
        DecisionView { action: self.action@, notice: self.notice@ }
    }
}

/// The engine goes to `phase` and asks for `action`.
pub open spec fn go(e: EngineView, phase: PhaseView, action: ActionView, notice: NoticeView) -> (
    EngineView,
    DecisionView,
) {
    (EngineView { phase, ..e }, DecisionView { action, notice })
}

/// The engine waits for a change of the sources.
pub open spec fn wait(e: EngineView, notice: NoticeView) -> (EngineView, DecisionView) {
    go(e, PhaseView::WaitingForChange, ActionView::Wait, notice)
}

/// The engine asks the generator for the input of `seed`.
pub open spec fn generate(e: EngineView, seed: u64, notice: NoticeView) -> (
    EngineView,
    DecisionView,
) {
    go(
        e,
        PhaseView::Sweeping { seed, stage: StageView::AwaitGenerator },
        ActionView::Run { program: Program::Generator, input: decimal(seed as nat) },
        notice,
    )
}

/// The sweep is done with `seed` and found no mismatch there: it goes on
/// with the next seed unless the session was cancelled or no seed is left.
pub open spec fn advance(e: EngineView, seed: u64, cancelled: bool, notice: NoticeView) -> (
    EngineView,
    DecisionView,
) {
    if seed == u64::MAX || cancelled {
        wait(e, notice)
    } else {
        generate(e, (seed + 1) as u64, notice)
    }
}

/// Reference and candidate agree: their outputs are equal once trimmed.
pub open spec fn outputs_agree(expected: Seq<char>, actual: Seq<char>) -> bool {
    trim(expected) == trim(actual)
}

/// What the engine does on a finished run while it sweeps.
pub open spec fn on_ran(
    e: EngineView,
    seed: u64,
    stage: StageView,
    result: Result<Seq<char>, RunErrorView>,
    cancelled: bool,
) -> (EngineView, DecisionView) {
    match result {
        Err(error) => advance(
            e,
            seed,
            cancelled,
            NoticeView::RunFailed { seed, program: stage.program(), error },
        ),
        Ok(out) => match stage {
            StageView::AwaitGenerator => if cancelled {
                wait(e, NoticeView::Nothing)
            } else {
                go(
                    e,
                    PhaseView::Sweeping { seed, stage: StageView::AwaitReference { input: out } },
                    ActionView::Run { program: Program::Reference, input: out },
                    NoticeView::Nothing,
                )
            },
            StageView::AwaitReference { input } => if cancelled {
                wait(e, NoticeView::Nothing)
            } else {
                go(
                    e,
                    PhaseView::Sweeping {
                        seed,
                        stage: StageView::AwaitCandidate { input, expected: out },
                    },
                    ActionView::Run { program: Program::Candidate, input },
                    NoticeView::Nothing,
                )
            },
            StageView::AwaitCandidate { input, expected } => if !outputs_agree(expected, out) {
                wait(
                    e,
                    NoticeView::Mismatch {
                        report: MismatchReportView {
                            seed,
                            generated_input: input,
                            expected_output: expected,
                            actual_output: out,
                        },
                    },
                )
            } else {
                advance(
                    e,
                    seed,
                    cancelled,
                    if seed == u64::MAX {
                        NoticeView::SeedsExhausted
                    } else {
                        NoticeView::Nothing
                    },
                )
            },
        },
    }
}

/// The state that follows `e` on `event`, and what the caller is to do.
///
/// - Idle: on `Start` the sources are compiled.
/// - Compiling: if a source did not compile, no sweep is tried; else the
///   sweep starts at seed 1.
/// - Sweeping: generator, reference and candidate run in this order for
///   each seed. A failed run is reported and the sweep goes on with the next
///   seed. A mismatch ends the sweep. Seeds only grow.
/// - WaitingForChange: a change of a source starts the next cycle.
/// - Stopped: nothing follows.
///
/// A cancelled session starts no run and no compilation: a sweep gives way
/// to waiting, and waiting to `Stopped`. An event that the phase does not
/// await changes nothing.
pub open spec fn step_spec(e: EngineView, event: EventView, cancelled: bool) -> (
    EngineView,
    DecisionView,
) {
    match e.phase {
        PhaseView::Idle => match event {
            EventView::Start => if cancelled {
                go(e, PhaseView::Stopped, ActionView::Stop, NoticeView::Nothing)
            } else {
                go(e, PhaseView::Compiling, ActionView::Compile, NoticeView::Nothing)
            },
            _ => go(e, e.phase, ActionView::Ignore, NoticeView::Nothing),
        },
        PhaseView::Compiling => match event {
            EventView::Compiled { candidate, generator, reference } => if !(candidate && generator
                && reference) {
                wait(e, NoticeView::CompileFailed)
            } else if cancelled {
                wait(e, NoticeView::Nothing)
            } else {
                generate(e, 1, NoticeView::Nothing)
            },
            _ => go(e, e.phase, ActionView::Ignore, NoticeView::Nothing),
        },
        PhaseView::Sweeping { seed, stage } => match event {
            EventView::Ran { result } => on_ran(e, seed, stage, result, cancelled),
            _ => go(e, e.phase, ActionView::Ignore, NoticeView::Nothing),
        },
        PhaseView::WaitingForChange => match event {
            EventView::Notified { kind, current } => if cancelled {
                go(e, PhaseView::Stopped, ActionView::Stop, NoticeView::Nothing)
            } else if is_change(e.last_modified, kind, current) {
                go(
                    EngineView { last_modified: current, ..e },
                    PhaseView::Compiling,
                    ActionView::Compile,
                    NoticeView::Nothing,
                )
            } else {
                wait(e, NoticeView::Nothing)
            },
            EventView::Quiet => if cancelled {
                go(e, PhaseView::Stopped, ActionView::Stop, NoticeView::Nothing)
            } else {
                wait(e, NoticeView::Nothing)
            },
            _ => go(e, e.phase, ActionView::Ignore, NoticeView::Nothing),
        },
        PhaseView::Stopped => go(e, PhaseView::Stopped, ActionView::Stop, NoticeView::Nothing),
    }
}

/// Tells whether two outputs are equal once trimmed.
pub fn outputs_equal(expected: &str, actual: &str) -> (r: bool)
    ensures
        r == outputs_agree(expected@, actual@),
{
    trim_text(expected) == trim_text(actual)
}

fn decide(action: Action, notice: Notice) -> (d: Decision)
    ensures
        d@ == (DecisionView { action: action@, notice: notice@ }),
{
    Decision { action, notice }
}

fn generate_for(watcher: ChangeWatcher, seed: u64, notice: Notice) -> (r: (StressEngine, Decision))
    ensures
        (r.0@, r.1@) == generate(
            EngineView { phase: PhaseView::Idle, last_modified: watcher@ },
            seed,
            notice@,
        ),
{
    (
        StressEngine { phase: Phase::Sweeping { seed, stage: Stage::AwaitGenerator }, watcher },
        decide(Action::Run { program: Program::Generator, input: decimal_string(seed) }, notice),
    )
}

fn wait_with(watcher: ChangeWatcher, notice: Notice) -> (r: (StressEngine, Decision))
    ensures
        (r.0@, r.1@) == wait(
            EngineView { phase: PhaseView::Idle, last_modified: watcher@ },
            notice@,
        ),
{
    (StressEngine { phase: Phase::WaitingForChange, watcher }, decide(Action::Wait, notice))
}

fn advance_from(watcher: ChangeWatcher, seed: u64, cancelled: bool, notice: Notice) -> (r: (
    StressEngine,
    Decision,
))
    ensures
        (r.0@, r.1@) == advance(
            EngineView { phase: PhaseView::Idle, last_modified: watcher@ },
            seed,
            cancelled,
            notice@,
        ),
{
    if seed == u64::MAX || cancelled {
        wait_with(watcher, notice)
    } else {
        generate_for(watcher, seed + 1, notice)
    }
}

impl Stage {
    /// The program whose run the stage waits for.
    pub fn program(&self) -> (p: Program)
        ensures
            p == self@.program(),
    {
        match self {
            Stage::AwaitGenerator => Program::Generator,
            Stage::AwaitReference { .. } => Program::Reference,
            Stage::AwaitCandidate { .. } => Program::Candidate,
        }
    }
}

impl StressEngine {
    /// An idle engine that remembers the modification times `modified` of
    /// the three sources.
    pub fn new(modified: Vec<u128>) -> (engine: StressEngine)
        ensures
            engine@ == (EngineView { phase: PhaseView::Idle, last_modified: modified@ }),
    {
        StressEngine { phase: Phase::Idle, watcher: ChangeWatcher::new(modified) }
    }

    /// Takes one event and the cancellation flag as it stands. Returns the
    /// engine in its next state and what the caller is to do.
    pub fn step(self, event: Event, cancelled: bool) -> (r: (StressEngine, Decision))
        ensures
            (r.0@, r.1@) == step_spec(self@, event@, cancelled),
    {
        let StressEngine { phase, watcher } = self;
        match phase {
            Phase::Idle => match event {
                Event::Start => if cancelled {
                    (
                        StressEngine { phase: Phase::Stopped, watcher },
                        decide(Action::Stop, Notice::Nothing),
                    )
                } else {
                    (
                        StressEngine { phase: Phase::Compiling, watcher },
                        decide(Action::Compile, Notice::Nothing),
                    )
                },
                _ => (
                    StressEngine { phase: Phase::Idle, watcher },
                    decide(Action::Ignore, Notice::Nothing),
                ),
            },
            Phase::Compiling => match event {
                Event::Compiled { candidate, generator, reference } => {
                    if !(candidate && generator && reference) {
                        wait_with(watcher, Notice::CompileFailed)
                    } else if cancelled {
                        wait_with(watcher, Notice::Nothing)
                    } else {
                        generate_for(watcher, 1, Notice::Nothing)
                    }
                },
                _ => (
                    StressEngine { phase: Phase::Compiling, watcher },
                    decide(Action::Ignore, Notice::Nothing),
                ),
            },
            Phase::Sweeping { seed, stage } => match event {
                Event::Ran { result } => match result {
                    Err(error) => {
                        let program = stage.program();
                        advance_from(
                            watcher,
                            seed,
                            cancelled,
                            Notice::RunFailed { seed, program, error },
                        )
                    },
                    Ok(out) => match stage {
                        Stage::AwaitGenerator => {
                            if cancelled {
                                wait_with(watcher, Notice::Nothing)
                            } else {
                                let input = out.clone();
                                (
                                    StressEngine {
                                        phase: Phase::Sweeping {
                                            seed,
                                            stage: Stage::AwaitReference { input: out },
                                        },
                                        watcher,
                                    },
                                    decide(
                                        Action::Run { program: Program::Reference, input },
                                        Notice::Nothing,
                                    ),
                                )
                            }
                        },
                        Stage::AwaitReference { input } => {
                            if cancelled {
                                wait_with(watcher, Notice::Nothing)
                            } else {
                                let again = input.clone();
                                (
                                    StressEngine {
                                        phase: Phase::Sweeping {
                                            seed,
                                            stage: Stage::AwaitCandidate { input, expected: out },
                                        },
                                        watcher,
                                    },
                                    decide(
                                        Action::Run { program: Program::Candidate, input: again },
                                        Notice::Nothing,
                                    ),
                                )
                            }
                        },
                        Stage::AwaitCandidate { input, expected } => {
                            if !outputs_equal(expected.as_str(), out.as_str()) {
                                wait_with(
                                    watcher,
                                    Notice::Mismatch {
                                        report: MismatchReport {
                                            seed,
                                            generated_input: input,
                                            expected_output: expected,
                                            actual_output: out,
                                        },
                                    },
                                )
                            } else if seed == u64::MAX {
                                advance_from(watcher, seed, cancelled, Notice::SeedsExhausted)
                            } else {
                                advance_from(watcher, seed, cancelled, Notice::Nothing)
                            }
                        },
                    },
                },
                _ => (
                    StressEngine { phase: Phase::Sweeping { seed, stage }, watcher },
                    decide(Action::Ignore, Notice::Nothing),
                ),
            },
            Phase::WaitingForChange => match event {
                Event::Notified { kind, current } => {
                    if cancelled {
                        (
                            StressEngine { phase: Phase::Stopped, watcher },
                            decide(Action::Stop, Notice::Nothing),
                        )
                    } else {
                        let (watcher, changed) = watcher.observe(kind, current);
                        if changed {
                            (
                                StressEngine { phase: Phase::Compiling, watcher },
                                decide(Action::Compile, Notice::Nothing),
                            )
                        } else {
                            wait_with(watcher, Notice::Nothing)
                        }
                    }
                },
                Event::Quiet => {
                    if cancelled {
                        (
                            StressEngine { phase: Phase::Stopped, watcher },
                            decide(Action::Stop, Notice::Nothing),
                        )
                    } else {
                        wait_with(watcher, Notice::Nothing)
                    }
                },
                _ => (
                    StressEngine { phase: Phase::WaitingForChange, watcher },
                    decide(Action::Ignore, Notice::Nothing),
                ),
            },
            Phase::Stopped => (
                StressEngine { phase: Phase::Stopped, watcher },
                decide(Action::Stop, Notice::Nothing),
            ),
        }
    }
}

} // verus!
