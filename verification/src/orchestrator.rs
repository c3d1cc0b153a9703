//! Coordinated shutdown of the units of work (the ingest loops and the
//! serving loop), as a step function: the driver reports interrupts and
//! exits, and does what the step answers.

use crate::ingestor::{IngestError, IngestOutcome};
use vstd::prelude::*;

verus! {

/// Why a unit of work ended in failure.
#[derive(Clone, Copy, PartialEq, Eq, Structural, Debug)]
pub enum UnitFailure {
    /// An ingest loop failed.
    Ingest(IngestError),
    /// The serving loop failed.
    Serve,
}

/// What the driver reports.
#[derive(Clone, Copy, PartialEq, Eq, Structural, Debug)]
pub enum Signal {
    /// The operator asked for shutdown.
    Interrupt,
    /// The unit with this number ended, with or without a failure.
    UnitExited { unit: usize, failure: Option<UnitFailure> },
}

/// The failure with which an ingest loop that ended with `outcome` is
/// reported: that of the loop where it failed, none where it was cancelled
/// or completed.
pub open spec fn failure_of(outcome: IngestOutcome) -> Option<UnitFailure> {
    match outcome {
        IngestOutcome::Failed(error) => Some(UnitFailure::Ingest(error)),
        _ => None,
    }
}

impl Signal {
    /// The report that the ingest loop run as unit `unit` ended with
    /// `outcome`.
    pub fn ingest_exit(unit: usize, outcome: IngestOutcome) -> (signal: Signal)
        ensures
            signal == (Signal::UnitExited { unit, failure: failure_of(outcome) }),
    {
        match outcome {
            IngestOutcome::Failed(error) => Signal::UnitExited {
                unit,
                failure: Some(UnitFailure::Ingest(error)),
            },
            _ => Signal::UnitExited { unit, failure: None },
        }
    }

    /// The report that the serving loop run as unit `unit` ended, in failure
    /// where `failed` says so.
    pub fn serve_exit(unit: usize, failed: bool) -> (signal: Signal)
        ensures
            signal == (Signal::UnitExited {
                unit,
                failure: if failed {
                    Some(UnitFailure::Serve)
                } else {
                    None
                },
            }),
    {
        if failed {
            Signal::UnitExited { unit, failure: Some(UnitFailure::Serve) }
        } else {
            Signal::UnitExited { unit, failure: None }
        }
    }
}

/// What set the shutdown off.
#[derive(Clone, Copy, PartialEq, Eq, Structural, Debug)]
pub enum ShutdownCause {
    /// The operator's interrupt.
    Interrupt,
    /// The first unit that ended.
    UnitExited { unit: usize, failure: Option<UnitFailure> },
}

/// How the whole run ends.
#[derive(Clone, Copy, PartialEq, Eq, Structural, Debug)]
pub enum ExitStatus {
    Success,
    Failure(UnitFailure),
}

/// What the driver is to do next.
#[derive(Clone, Copy, PartialEq, Eq, Structural, Debug)]
pub enum Command {
    /// Wait for the next interrupt or exit.
    Wait,
    /// Set the cancellation signal for every unit, then wait for the exits.
    Cancel,
    /// Every unit has ended: return with this status.
    Finish(ExitStatus),
}

/// The state of the orchestration: which units still run, and what set the
/// shutdown off, once something has.
pub struct OrchestratorState {
    pub running: Seq<bool>,
    pub cause: Option<ShutdownCause>,
}

/// What one step decides.
pub struct Advance {
    pub next: OrchestratorState,
    pub command: Command,
}

/// No unit runs.
pub open spec fn all_exited(running: Seq<bool>) -> bool {
    forall|i: int| 0 <= i < running.len() ==> !running[i]
}

/// The status with which a run ends whose shutdown `cause` set off: success
/// after an interrupt or after a unit that ended without failure, else the
/// failure of the unit that ended first.
pub open spec fn exit_status(cause: ShutdownCause) -> ExitStatus {
    match cause {
        ShutdownCause::Interrupt => ExitStatus::Success,
        ShutdownCause::UnitExited { unit, failure } => match failure {
            Some(f) => ExitStatus::Failure(f),
            None => ExitStatus::Success,
        },
    }
}

/// Whether `unit` is the number of a unit that still runs.
pub open spec fn runs(running: Seq<bool>, unit: usize) -> bool {
    unit < running.len() && running[unit as int]
}

/// The step taken in a shutdown that `cause` set off, with `running` the
/// units left after it: the run finishes where none is left.
pub open spec fn settle(running: Seq<bool>, cause: ShutdownCause, otherwise: Command) -> Advance {
    Advance {
        next: OrchestratorState { running, cause: Some(cause) },
        command: if all_exited(running) {
            Command::Finish(exit_status(cause))
        } else {
            otherwise
        },
    }
}

/// The step of the orchestration: what follows in `state` on `signal`.
pub open spec fn advance(state: OrchestratorState, signal: Signal) -> Advance {
    match state.cause {
        None => match signal {
            Signal::Interrupt => settle(state.running, ShutdownCause::Interrupt, Command::Cancel),
            Signal::UnitExited { unit, failure } => if runs(state.running, unit) {
                settle(
                    state.running.update(unit as int, false),
                    ShutdownCause::UnitExited { unit, failure },
                    Command::Cancel,
                )
            } else {
                Advance { next: state, command: Command::Wait }
            },
        },
        Some(cause) => match signal {
            Signal::UnitExited { unit, failure } => if runs(state.running, unit) {
                settle(state.running.update(unit as int, false), cause, Command::Wait)
            } else {
                settle(state.running, cause, Command::Wait)
            },
            Signal::Interrupt => settle(state.running, cause, Command::Wait),
        },
    }
}

/// The orchestration of a fixed number of units of work.
pub struct Orchestrator {
    running: Vec<bool>,
    cause: Option<ShutdownCause>,
}

impl View for Orchestrator {
    type V = OrchestratorState;

    closed spec fn view(&self) -> OrchestratorState {
        OrchestratorState { running: self.running@, cause: self.cause }
    }
}

impl Orchestrator {
    /// The orchestration of `units` units, all of them running, with no
    /// shutdown under way.
    pub fn new(units: usize) -> (orchestrator: Orchestrator)
        ensures
            orchestrator@.running == Seq::new(units as nat, |i: int| true),
            orchestrator@.cause is None,
    {
        let mut running: Vec<bool> = Vec::new();
        let mut i: usize = 0;
        while i < units
            invariant
                i <= units,
                running@ == Seq::new(i as nat, |j: int| true),
            decreases units - i,
        {
            running.push(true);
            i = i + 1;
            assert(running@ =~= Seq::new(i as nat, |j: int| true));
        }
        Orchestrator { running, cause: None }
    }

    /// The number of units.
    pub fn units(&self) -> (units: usize)
        ensures
            units == self@.running.len(),
    {
        self.running.len()
    }

    /// Whether `unit` is the number of a unit that still runs.
    pub fn is_running(&self, unit: usize) -> (running: bool)
        ensures
            running == runs(self@.running, unit),
    {
        unit < self.running.len() && self.running[unit]
    }

    /// What set the shutdown off, once something has.
    pub fn cause(&self) -> (cause: Option<ShutdownCause>)
        ensures
            cause == self@.cause,
    {
        self.cause
    }

    /// Whether a shutdown is under way, which is when the cancellation signal
    /// is set. Once it is, it stays so.
    pub fn is_shutting_down(&self) -> (shutting_down: bool)
        ensures
            shutting_down == self@.cause is Some,
    {
        self.cause.is_some()
    }

    /// Whether the run is over: a shutdown was set off and no unit runs.
    pub fn is_finished(&self) -> (finished: bool)
        ensures
            finished == (self@.cause is Some && all_exited(self@.running)),
    {
        self.cause.is_some() && none_runs(&self.running)
    }

    /// Takes one signal: moves the orchestration as `advance` says and
    /// answers with the command for the driver.
    pub fn handle(&mut self, signal: Signal) -> (command: Command)
        ensures
            final(self)@ == advance(old(self)@, signal).next,
            command == advance(old(self)@, signal).command,
    {
        let first = self.cause.is_none();
        match signal {
            Signal::Interrupt => {
                if first {
                    self.cause = Some(ShutdownCause::Interrupt);
                }
            },
            Signal::UnitExited { unit, failure } => {
                if unit < self.running.len() && self.running[unit] {
                    self.running.set(unit, false);
                    if first {
                        self.cause = Some(ShutdownCause::UnitExited { unit, failure });
                    }
                } else if first {
                    return Command::Wait;
                }
            },
        }
        match self.cause {
            Some(cause) => if none_runs(&self.running) {
                Command::Finish(status_of(cause))
            } else if first {
                Command::Cancel
            } else {
                Command::Wait
            },
            None => Command::Wait,
        }
    }
}

/// The status with which a run ends whose shutdown `cause` set off.
pub fn status_of(cause: ShutdownCause) -> (status: ExitStatus)
    ensures
        status == exit_status(cause),
{
    match cause {
        ShutdownCause::Interrupt => ExitStatus::Success,
        ShutdownCause::UnitExited { unit: _, failure } => match failure {
            Some(f) => ExitStatus::Failure(f),
            None => ExitStatus::Success,
        },
    }
}

/// Whether no unit runs.
fn none_runs(running: &Vec<bool>) -> (none: bool)
    ensures
        none == all_exited(running@),
{
    let mut i: usize = 0;
    while i < running.len()
        invariant
            i <= running@.len(),
            forall|j: int| 0 <= j < i ==> !running@[j],
        decreases running@.len() - i,
    {
        if running[i] {
            return false;
        }
        i = i + 1;
    }
    true
}


/// The state reached from `state` when `signals` were handled in turn.
pub open spec fn reached(state: OrchestratorState, signals: Seq<Signal>) -> OrchestratorState
    decreases signals.len(),
{
    if signals.len() == 0 {
        state
    } else {
        advance(reached(state, signals.drop_last()), signals.last()).next
    }
}

/// How often cancellation was commanded while `signals` were handled in
/// turn from `state` on.
pub open spec fn cancellations(state: OrchestratorState, signals: Seq<Signal>) -> nat
    decreases signals.len(),
{
    if signals.len() == 0 {
        0
    } else {
        let before = cancellations(state, signals.drop_last());
        if advance(reached(state, signals.drop_last()), signals.last()).command == Command::Cancel {
            before + 1
        } else {
            before
        }
    }
}

/// The run is declared finished exactly when a shutdown is under way and no
/// unit runs any more, and then with the status that the cause of the
/// shutdown gives: no unit is left running behind a finished run.
pub proof fn law_finish_means_all_exited(state: OrchestratorState, signal: Signal)
    ensures
        advance(state, signal).command is Finish <==> advance(state, signal).next.cause is Some
            && all_exited(advance(state, signal).next.running),
        advance(state, signal).command is Finish ==> advance(state, signal).command
            == Command::Finish(exit_status(advance(state, signal).next.cause->Some_0)),
{
}

/// The first cause of the shutdown stays: a run that an interrupt set off
/// ends in success whatever the units report afterwards, and a run that a
/// unit's exit set off ends with that unit's failure, if it had one.
pub proof fn law_first_cause_decides(state: OrchestratorState, signal: Signal)
    ensures
        state.cause is Some ==> advance(state, signal).next.cause == state.cause,
        state.cause is None && signal is Interrupt ==> advance(state, signal).next.cause == Some(
            ShutdownCause::Interrupt,
        ),
        exit_status(ShutdownCause::Interrupt) == ExitStatus::Success,
{
}

/// A unit that has ended does not run again, and the number of units stays.
pub proof fn law_exits_are_final(state: OrchestratorState, signal: Signal)
    ensures
        advance(state, signal).next.running.len() == state.running.len(),
        forall|i: int|
            0 <= i < state.running.len() && advance(state, signal).next.running[i]
                ==> state.running[i],
{
}

/// Cancellation is commanded in the step that sets the shutdown off, where
/// units are left to cancel, and in no other step.
pub proof fn law_cancel_at_shutdown_start(state: OrchestratorState, signal: Signal)
    ensures
        advance(state, signal).command == Command::Cancel <==> state.cause is None && advance(
            state,
            signal,
        ).next.cause is Some && !all_exited(advance(state, signal).next.running),
{
}

/// From a start with no shutdown under way, cancellation is commanded at most
/// once, and exactly once by the time a shutdown is under way with units
/// still running: every unit that has to stop is told so once.
pub proof fn law_cancelled_exactly_once(state: OrchestratorState, signals: Seq<Signal>)
    requires
        state.cause is None,
    ensures
        cancellations(state, signals) <= 1,
        reached(state, signals).cause is None ==> cancellations(state, signals) == 0,
        reached(state, signals).cause is Some && !all_exited(reached(state, signals).running)
            ==> cancellations(state, signals) == 1,
    decreases signals.len(),
{
    if signals.len() > 0 {
        let front = signals.drop_last();
        law_cancelled_exactly_once(state, front);
        let before = reached(state, front);
        law_cancel_at_shutdown_start(before, signals.last());
        law_first_cause_decides(before, signals.last());
        if before.cause is Some && all_exited(before.running) {
            law_exits_are_final(before, signals.last());
            assert(all_exited(advance(before, signals.last()).next.running));
        }
    }
}

} // verus!
