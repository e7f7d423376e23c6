//! What holds of every step of the stress engine, and what a sweep amounts
//! to when the three programs are functions of their input: where it halts,
//! and that it halts nowhere else.

use crate::process::RunErrorView;
use crate::stress::{
    generate, outputs_agree, step_spec, wait, ActionView, DecisionView, EngineView, EventView,
    MismatchReportView, NoticeView, PhaseView, Program, StageView,
};
use crate::text::decimal;
use vstd::prelude::*;

verus! {

/// A program is run only after all three sources compiled: the engine asks
/// for a run only in a sweep, and a sweep starts only when the three
/// compilations are reported as successful.
pub proof fn lemma_run_needs_compiled(e: EngineView, event: EventView, cancelled: bool)
    requires
        step_spec(e, event, cancelled).1.action is Run,
    ensures
        step_spec(e, event, cancelled).0.phase is Sweeping,
        e.phase is Sweeping || (e.phase is Compiling && event == EventView::Compiled {
            candidate: true,
            generator: true,
            reference: true,
        }),
        !cancelled,
{
}

/// A sweep never uses a seed twice: a step within a sweep keeps the seed
/// and goes on to the next program, or asks the generator for the seed that
/// follows. A sweep starts at seed 1.
pub proof fn lemma_seeds_grow(e: EngineView, event: EventView, cancelled: bool)
    requires
        step_spec(e, event, cancelled).0.phase is Sweeping,
    ensures
        ({
            let next = step_spec(e, event, cancelled);
            let seed = next.0.phase->Sweeping_seed;
            let stage = next.0.phase->Sweeping_stage;
            match e.phase {
                PhaseView::Sweeping { seed: old_seed, stage: old_stage } => {
                    ||| next.0 == e && next.1.action is Ignore
                    ||| seed == old_seed && !(stage is AwaitGenerator) && next.1.action is Run
                    ||| seed == old_seed + 1 && stage is AwaitGenerator && next.1.action
                        == ActionView::Run {
                        program: Program::Generator,
                        input: decimal(seed as nat),
                    }
                },
                _ => seed == 1 && stage is AwaitGenerator,
            }
        }),
{
}

/// A mismatch ends the sweep and not the engine: with the report the engine
/// goes back to waiting for a change.
pub proof fn lemma_mismatch_waits(e: EngineView, event: EventView, cancelled: bool)
    requires
        step_spec(e, event, cancelled).1.notice is Mismatch,
    ensures
        step_spec(e, event, cancelled).0.phase is WaitingForChange,
        step_spec(e, event, cancelled).1.action is Wait,
        e.phase matches PhaseView::Sweeping { seed, stage } && stage is AwaitCandidate
            && step_spec(e, event, cancelled).1.notice->Mismatch_report.seed == seed,
{
}

/// The engine stops only when cancelled, and stays stopped.
pub proof fn lemma_stops_when_cancelled(e: EngineView, event: EventView, cancelled: bool)
    ensures
        e.phase is Stopped ==> step_spec(e, event, cancelled).0.phase is Stopped,
        step_spec(e, event, cancelled).0.phase is Stopped ==> cancelled || e.phase is Stopped,
        step_spec(e, event, cancelled).1.action is Stop <==> step_spec(
            e,
            event,
            cancelled,
        ).0.phase is Stopped,
{
}

/// A cancelled session starts nothing: no compilation and no run.
pub proof fn lemma_cancelled_starts_nothing(e: EngineView, event: EventView)
    ensures
        !(step_spec(e, event, true).1.action is Run),
        !(step_spec(e, event, true).1.action is Compile),
        !(step_spec(e, event, true).0.phase is Sweeping) || step_spec(e, event, true).0 == e,
{
}

/// What a run of a program gives.
pub type RunResult = Result<Seq<char>, RunErrorView>;

/// Three programs whose outcome depends on their input alone.
pub struct Programs {
    pub generator: spec_fn(Seq<char>) -> RunResult,
    pub reference: spec_fn(Seq<char>) -> RunResult,
    pub candidate: spec_fn(Seq<char>) -> RunResult,
}

impl Programs {
    /// The outcome of running `program` on `input`.
    pub open spec fn run(self, program: Program, input: Seq<char>) -> RunResult {
        match program {
            Program::Generator => (self.generator)(input),
            Program::Reference => (self.reference)(input),
            Program::Candidate => (self.candidate)(input),
        }
    }

    /// What the generator makes of `seed`: it gets the decimal digits of the
    /// seed as its whole input.
    pub open spec fn generated(self, seed: u64) -> RunResult {
        (self.generator)(decimal(seed as nat))
    }
}

/// What the three programs give for one seed.
pub enum SeedOutcome {
    /// Reference and candidate agree.
    Agree,
    /// A program failed to run.
    Skipped { program: Program, error: RunErrorView },
    /// Reference and candidate disagree.
    Mismatch { report: MismatchReportView },
}

/// What the three programs give for `seed`: the generator runs on the seed,
/// the reference and the candidate on what the generator made.
pub open spec fn seed_outcome(p: Programs, seed: u64) -> SeedOutcome {
    match p.generated(seed) {
        Err(error) => SeedOutcome::Skipped { program: Program::Generator, error },
        Ok(input) => match (p.reference)(input) {
            Err(error) => SeedOutcome::Skipped { program: Program::Reference, error },
            Ok(expected) => match (p.candidate)(input) {
                Err(error) => SeedOutcome::Skipped { program: Program::Candidate, error },
                Ok(actual) => if outputs_agree(expected, actual) {
                    SeedOutcome::Agree
                } else {
                    SeedOutcome::Mismatch {
                        report: MismatchReportView {
                            seed,
                            generated_input: input,
                            expected_output: expected,
                            actual_output: actual,
                        },
                    }
                },
            },
        },
    }
}

/// No seed from 1 up to, but not including, `seed` gives a mismatch.
pub open spec fn no_mismatch_before(p: Programs, seed: u64) -> bool {
    forall|s: u64| 1 <= s < seed ==> !(#[trigger] seed_outcome(p, s) is Mismatch)
}

/// `seed` is the first seed at which reference and candidate disagree.
pub open spec fn first_mismatch(p: Programs, seed: u64) -> bool {
    &&& seed >= 1
    &&& no_mismatch_before(p, seed)
    &&& seed_outcome(p, seed) is Mismatch
}

/// The engine after the caller did what `d` asks and reported the outcome:
/// a run is answered with what the program gives. The session is not
/// cancelled.
pub open spec fn answer(p: Programs, e: EngineView, d: DecisionView) -> (EngineView, DecisionView) {
    match d.action {
        ActionView::Run { program, input } => step_spec(
            e,
            EventView::Ran { result: p.run(program, input) },
            false,
        ),
        _ => (e, d),
    }
}

/// The engine after `n` runs were answered, or fewer if it asked for
/// something else before.
pub open spec fn drive(p: Programs, e: EngineView, d: DecisionView, n: nat) -> (
    EngineView,
    DecisionView,
)
    decreases n,
{
    if n == 0 {
        (e, d)
    } else {
        let a = answer(p, e, d);
        drive(p, a.0, a.1, (n - 1) as nat)
    }
}

/// The engine at the start of a sweep: the sources compiled, and the
/// generator is asked for the input of seed 1.
pub open spec fn sweep_start(modified: Seq<u128>) -> (EngineView, DecisionView) {
    step_spec(
        EngineView { phase: PhaseView::Compiling, last_modified: modified },
        EventView::Compiled { candidate: true, generator: true, reference: true },
        false,
    )
}

/// The engine is in a sweep, what it holds of the current seed is what the
/// programs gave, it asks for the run that comes next, and no earlier seed
/// gave a mismatch.
pub open spec fn sweeping(p: Programs, e: EngineView, d: DecisionView) -> bool {
    match e.phase {
        PhaseView::Sweeping { seed, stage } => {
            &&& seed >= 1
            &&& no_mismatch_before(p, seed)
            &&& match stage {
                StageView::AwaitGenerator => d.action == ActionView::Run {
                    program: Program::Generator,
                    input: decimal(seed as nat),
                },
                StageView::AwaitReference { input } => {
                    &&& p.generated(seed) == RunResult::Ok(input)
                    &&& d.action == ActionView::Run { program: Program::Reference, input }
                },
                StageView::AwaitCandidate { input, expected } => {
                    &&& p.generated(seed) == RunResult::Ok(input)
                    &&& (p.reference)(input) == RunResult::Ok(expected)
                    &&& d.action == ActionView::Run { program: Program::Candidate, input }
                },
            }
        },
        _ => false,
    }
}

/// The seed that a sweeping engine has come to.
pub open spec fn current_seed(e: EngineView) -> u64 {
    match e.phase {
        PhaseView::Sweeping { seed, .. } => seed,
        _ => 0,
    }
}

/// The sweep ended with a mismatch report: the engine waits for a change,
/// the report is the one of the first seed at which reference and candidate
/// disagree, and it holds what was captured for that seed.
pub open spec fn halted(p: Programs, e: EngineView, d: DecisionView) -> bool {
    &&& e.phase == PhaseView::WaitingForChange
    &&& d.action == ActionView::Wait
    &&& match d.notice {
        NoticeView::Mismatch { report } => {
            &&& first_mismatch(p, report.seed)
            &&& seed_outcome(p, report.seed) == SeedOutcome::Mismatch { report }
        },
        _ => false,
    }
}

/// The sweep ended because the last seed there is was used.
pub open spec fn out_of_seeds(e: EngineView, d: DecisionView) -> bool {
    &&& e.phase == PhaseView::WaitingForChange
    &&& d.action == ActionView::Wait
    &&& match d.notice {
        NoticeView::SeedsExhausted => true,
        NoticeView::RunFailed { seed, .. } => seed == u64::MAX,
        _ => false,
    }
}

/// One answered run keeps a sweep going, at the same seed or the next, or
/// ends it with the report of the first mismatch, or with the last seed.
pub proof fn lemma_answer(p: Programs, e: EngineView, d: DecisionView)
    requires
        sweeping(p, e, d),
    ensures
        ({
            let a = answer(p, e, d);
            &&& a.0.last_modified == e.last_modified
            &&& {
                ||| sweeping(p, a.0, a.1) && current_seed(e) <= current_seed(a.0) <= current_seed(e)
                    + 1
                ||| halted(p, a.0, a.1)
                ||| out_of_seeds(a.0, a.1) && current_seed(e) == u64::MAX
            }
        }),
{
    let a = answer(p, e, d);
    let seed = current_seed(e);
    if sweeping(p, a.0, a.1) && current_seed(a.0) == seed + 1 {
    } else if a.0.phase is Sweeping && current_seed(a.0) == seed + 1 {
        assert(!(seed_outcome(p, seed) is Mismatch));
        assert forall|s: u64| 1 <= s < seed + 1 implies !(#[trigger] seed_outcome(p, s)
            is Mismatch) by {
            if s < seed {
                assert(no_mismatch_before(p, seed));
            }
        }
    }
}

/// However many runs are answered, a sweep is still going, or has ended
/// with the report of the first mismatch, or with the last seed. A report
/// is made for no other seed.
pub proof fn lemma_drive(p: Programs, e: EngineView, d: DecisionView, n: nat)
    requires
        sweeping(p, e, d),
    ensures
        ({
            let r = drive(p, e, d, n);
            &&& r.0.last_modified == e.last_modified
            &&& {
                ||| sweeping(p, r.0, r.1) && current_seed(r.0) <= current_seed(e) + n
                ||| halted(p, r.0, r.1)
                ||| out_of_seeds(r.0, r.1) && u64::MAX <= current_seed(e) + n
            }
        }),
    decreases n,
{
    if n > 0 {
        lemma_answer(p, e, d);
        let a = answer(p, e, d);
        if sweeping(p, a.0, a.1) {
            lemma_drive(p, a.0, a.1, (n - 1) as nat);
        } else {
            lemma_drive_ended(p, a.0, a.1, (n - 1) as nat);
        }
    }
}

/// Once the engine asks for no run, answering changes nothing.
pub proof fn lemma_drive_ended(p: Programs, e: EngineView, d: DecisionView, n: nat)
    requires
        !(d.action is Run),
    ensures
        drive(p, e, d, n) == (e, d),
    decreases n,
{
    if n > 0 {
        lemma_drive_ended(p, e, d, (n - 1) as nat);
    }
}

/// Answering `a + b` runs is answering `a` runs and then `b` more.
pub proof fn lemma_drive_add(p: Programs, e: EngineView, d: DecisionView, a: nat, b: nat)
    ensures
        drive(p, e, d, a + b) == drive(p, drive(p, e, d, a).0, drive(p, e, d, a).1, b),
    decreases a,
{
    if a > 0 {
        let next = answer(p, e, d);
        lemma_drive_add(p, next.0, next.1, (a - 1) as nat, b);
        assert((a + b - 1) as nat == (a - 1) as nat + b);
    }
}

/// A sweep starts as a sweep at seed 1.
pub proof fn lemma_sweep_start(p: Programs, modified: Seq<u128>)
    ensures
        sweeping(p, sweep_start(modified).0, sweep_start(modified).1),
        current_seed(sweep_start(modified).0) == 1,
{
}

/// A sweep halts only at the first seed at which reference and candidate
/// disagree: whenever the engine reports a mismatch, after however many
/// runs, the report is that of the first mismatching seed and holds what the
/// programs gave for it.
pub proof fn lemma_halts_at_first_mismatch(p: Programs, modified: Seq<u128>, n: nat)
    requires
        drive(p, sweep_start(modified).0, sweep_start(modified).1, n).1.notice is Mismatch,
    ensures
        halted(
            p,
            drive(p, sweep_start(modified).0, sweep_start(modified).1, n).0,
            drive(p, sweep_start(modified).0, sweep_start(modified).1, n).1,
        ),
{
    let s = sweep_start(modified);
    lemma_sweep_start(p, modified);
    lemma_drive(p, s.0, s.1, n);
    let r = drive(p, s.0, s.1, n);
    if sweeping(p, r.0, r.1) {
        lemma_sweeping_notice(p, s.0, s.1, n);
    }
}

/// While a sweep is going, the engine reports no mismatch.
pub proof fn lemma_sweeping_notice(p: Programs, e: EngineView, d: DecisionView, n: nat)
    requires
        sweeping(p, e, d),
        !(d.notice is Mismatch),
        sweeping(p, drive(p, e, d, n).0, drive(p, e, d, n).1),
    ensures
        !(drive(p, e, d, n).1.notice is Mismatch),
    decreases n,
{
    if n > 0 {
        let a = answer(p, e, d);
        lemma_answer(p, e, d);
        if sweeping(p, a.0, a.1) {
            lemma_sweeping_notice(p, a.0, a.1, (n - 1) as nat);
        } else {
            lemma_drive_ended(p, a.0, a.1, (n - 1) as nat);
        }
    }
}

/// Where reference and candidate agree on every seed, or a program fails,
/// the sweep never halts: after any number of runs that does not use up the
/// seeds the engine is in a sweep and asks for the next run.
pub proof fn lemma_never_halts(p: Programs, modified: Seq<u128>, n: nat)
    requires
        forall|s: u64| 1 <= s ==> !(#[trigger] seed_outcome(p, s) is Mismatch),
        1 + n < u64::MAX,
    ensures
        sweeping(
            p,
            drive(p, sweep_start(modified).0, sweep_start(modified).1, n).0,
            drive(p, sweep_start(modified).0, sweep_start(modified).1, n).1,
        ),
        drive(p, sweep_start(modified).0, sweep_start(modified).1, n).1.action is Run,
{
    let s = sweep_start(modified);
    lemma_sweep_start(p, modified);
    lemma_drive(p, s.0, s.1, n);
}

/// Run again, a sweep reports the same mismatch: two reports that the
/// engine makes for the same programs, after however many runs each, are
/// one report, with one seed.
pub proof fn lemma_same_mismatch(p: Programs, modified: Seq<u128>, n1: nat, n2: nat)
    requires
        drive(p, sweep_start(modified).0, sweep_start(modified).1, n1).1.notice is Mismatch,
        drive(p, sweep_start(modified).0, sweep_start(modified).1, n2).1.notice is Mismatch,
    ensures
        drive(p, sweep_start(modified).0, sweep_start(modified).1, n1).1.notice == drive(
            p,
            sweep_start(modified).0,
            sweep_start(modified).1,
            n2,
        ).1.notice,
{
    let s = sweep_start(modified);
    lemma_halts_at_first_mismatch(p, modified, n1);
    lemma_halts_at_first_mismatch(p, modified, n2);
    let r1 = drive(p, s.0, s.1, n1);
    let r2 = drive(p, s.0, s.1, n2);
    if n1 <= n2 {
        lemma_drive_add(p, s.0, s.1, n1, (n2 - n1) as nat);
        lemma_drive_ended(p, r1.0, r1.1, (n2 - n1) as nat);
    } else {
        lemma_drive_add(p, s.0, s.1, n2, (n1 - n2) as nat);
        lemma_drive_ended(p, r2.0, r2.1, (n1 - n2) as nat);
    }
}

/// How many runs `seed` takes: the sweep goes on to the next seed with the
/// first run that fails.
pub open spec fn runs_of(p: Programs, seed: u64) -> nat {
    match seed_outcome(p, seed) {
        SeedOutcome::Skipped { program, .. } => match program {
            Program::Generator => 1,
            Program::Reference => 2,
            Program::Candidate => 3,
        },
        _ => 3,
    }
}

/// How many runs the seeds from 1 to `seed` take.
pub open spec fn runs_through(p: Programs, seed: u64) -> nat
    decreases seed,
{
    if seed == 0 {
        0
    } else {
        runs_through(p, (seed - 1) as u64) + runs_of(p, seed)
    }
}

/// What the engine tells of a seed without a mismatch.
pub open spec fn seed_notice(p: Programs, seed: u64) -> NoticeView {
    match seed_outcome(p, seed) {
        SeedOutcome::Skipped { program, error } => NoticeView::RunFailed { seed, program, error },
        _ => NoticeView::Nothing,
    }
}

/// The runs of one seed: from the request to the generator the engine comes
/// to a mismatch report if the programs disagree, else to the request for
/// the next seed.
pub proof fn lemma_seed(p: Programs, e: EngineView, seed: u64, notice: NoticeView)
    ensures
        ({
            let start = generate(e, seed, notice);
            let r = drive(p, start.0, start.1, runs_of(p, seed));
            match seed_outcome(p, seed) {
                SeedOutcome::Mismatch { report } => r == wait(e, NoticeView::Mismatch { report }),
                _ => seed < u64::MAX ==> r == generate(e, (seed + 1) as u64, seed_notice(p, seed)),
            }
        }),
{
    let start = generate(e, seed, notice);
    reveal_with_fuel(drive, 4);
    let a1 = answer(p, start.0, start.1);
    match p.generated(seed) {
        Err(_) => {},
        Ok(input) => {
            let a2 = answer(p, a1.0, a1.1);
            match (p.reference)(input) {
                Err(_) => {},
                Ok(expected) => {
                    let a3 = answer(p, a2.0, a2.1);
                },
            }
        },
    }
}

/// Without a mismatch up to `seed`, the engine comes to the request for the
/// seed after it.
pub proof fn lemma_sweep_reaches(p: Programs, modified: Seq<u128>, seed: u64)
    requires
        seed < u64::MAX,
        no_mismatch_before(p, (seed + 1) as u64),
    ensures
        drive(p, sweep_start(modified).0, sweep_start(modified).1, runs_through(p, seed))
            == generate(
            EngineView { phase: PhaseView::Compiling, last_modified: modified },
            (seed + 1) as u64,
            if seed == 0 {
                NoticeView::Nothing
            } else {
                seed_notice(p, seed)
            },
        ),
    decreases seed,
{
    let e = EngineView { phase: PhaseView::Compiling, last_modified: modified };
    let s = sweep_start(modified);
    if seed > 0 {
        let before = (seed - 1) as u64;
        assert forall|t: u64| 1 <= t < before + 1 implies !(#[trigger] seed_outcome(p, t)
            is Mismatch) by {}
        lemma_sweep_reaches(p, modified, before);
        let mid = drive(p, s.0, s.1, runs_through(p, before));
        lemma_drive_add(p, s.0, s.1, runs_through(p, before), runs_of(p, seed));
        let notice = if before == 0 {
            NoticeView::Nothing
        } else {
            seed_notice(p, before)
        };
        lemma_seed(p, e, seed, notice);
        assert(!(seed_outcome(p, seed) is Mismatch));
    }
}

/// Where `seed` is the first seed at which reference and candidate
/// disagree, the sweep halts at exactly that seed: once the runs of the
/// seeds up to it are answered, the engine waits for a change and reports
/// the mismatch with what the programs gave for that seed.
pub proof fn lemma_sweep_halts(p: Programs, modified: Seq<u128>, seed: u64)
    requires
        first_mismatch(p, seed),
    ensures
        seed_outcome(p, seed) matches SeedOutcome::Mismatch { report } && drive(
            p,
            sweep_start(modified).0,
            sweep_start(modified).1,
            runs_through(p, seed),
        ) == wait(
            EngineView { phase: PhaseView::Compiling, last_modified: modified },
            NoticeView::Mismatch { report },
        ) && report.seed == seed && p.generated(seed) == RunResult::Ok(report.generated_input)
            && (p.reference)(report.generated_input) == RunResult::Ok(report.expected_output)
            && (p.candidate)(report.generated_input) == RunResult::Ok(report.actual_output),
{
    let e = EngineView { phase: PhaseView::Compiling, last_modified: modified };
    let s = sweep_start(modified);
    let before = (seed - 1) as u64;
    lemma_sweep_reaches(p, modified, before);
    lemma_drive_add(p, s.0, s.1, runs_through(p, before), runs_of(p, seed));
    let notice = if before == 0 {
        NoticeView::Nothing
    } else {
        seed_notice(p, before)
    };
    lemma_seed(p, e, seed, notice);
}

} // verus!
