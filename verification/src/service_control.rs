//! Stopping the service, reliably.
//!
//! A stop that was asked for is never lost, and a body that does not wind down cannot hold the
//! service up: after a deadline the stop is declared all the same, and reported for what it is.
use vstd::prelude::*;

verus! {

/// How long a body is given to wind down, in milliseconds.
pub const GRACEFUL_STOP_DEADLINE_MS: u64 = 20_000;

/// A stop request. Asking again changes nothing.
#[derive(Debug)]
pub struct StopSignal {
    requested: bool,
}

impl StopSignal {
    /// Whether a stop was asked for.
    pub closed spec fn asked(&self) -> bool {
        self.requested
    }

    /// A signal by which no stop was asked for yet.
    pub fn new() -> (r: Self)
        ensures
            !r.asked(),
    {
        StopSignal { requested: false }
    }

    /// Ask for a stop.
    pub fn request(&mut self)
        ensures
            final(self).asked(),
    {
        self.requested = true;
    }

    /// Whether a stop was asked for.
    pub fn is_requested(&self) -> (r: bool)
        ensures
            r == self.asked(),
    {
        self.requested
    }

    /// A waiter for the stop, taken before or after it is asked for.
    pub fn waiter(&self) -> (r: StopWaiter)
        ensures
            r == (StopWaiter {  }),
    {
        StopWaiter {  }
    }
}

impl Default for StopSignal {
    fn default() -> (r: Self)
        ensures
            !r.asked(),
    {
        StopSignal::new()
    }
}

/// Waits for a stop. What it waits for is the signal's state and not a change of it, so a stop that was
/// asked for before the wait began ends the wait as well.
#[derive(Debug)]
pub struct StopWaiter {}

impl StopWaiter {
    /// Whether the wait is over: a stop was asked for, whenever that was.
    pub fn wait_is_over(&self, signal: &StopSignal) -> (r: bool)
        ensures
            r == signal.asked(),
    {
        signal.is_requested()
    }
}

/// How the stop ended.
#[derive(Debug, Clone, Copy, PartialEq, Eq, Structural)]
pub enum StopOutcome {
    /// The body finished.
    Graceful,
    /// The deadline passed, and the stop was declared.
    Forced,
}

/// Where a run stands.
#[derive(Debug)]
pub enum RunStage<T> {
    /// The body runs, and no stop was seen.
    Serving,
    /// A stop was seen; the body may wind down until the deadline.
    WindingDown,
    /// The run is over.
    Over(Option<T>, StopOutcome),
}

/// What a run waits for.
#[derive(Debug, Clone, Copy, PartialEq, Eq, Structural)]
pub enum RunWait {
    /// The body or the stop.
    BodyOrStop,
    /// The body, for that many milliseconds.
    BodyOrDeadline(u64),
    /// Nothing.
    Nothing,
}

/// What happened.
#[derive(Debug)]
pub enum RunEvent<T> {
    /// The body finished with a result.
    BodyFinished(T),
    /// A stop was asked for.
    StopRequested,
    /// The deadline passed.
    DeadlinePassed,
}

impl<T> RunStage<T> {
    /// Where the run stands once `event` happened.
    pub open spec fn after(self, event: RunEvent<T>) -> RunStage<T> {
        match (self, event) {
            (RunStage::Over(r, o), _) => RunStage::Over(r, o),
            (_, RunEvent::BodyFinished(v)) => RunStage::Over(Some(v), StopOutcome::Graceful),
            (RunStage::Serving, RunEvent::StopRequested) => RunStage::WindingDown,
            (RunStage::WindingDown, RunEvent::DeadlinePassed) => RunStage::Over(
                None,
                StopOutcome::Forced,
            ),
            (stage, _) => stage,
        }
    }

    /// What the run waits for.
    pub fn wait(&self, deadline_ms: u64) -> (r: RunWait)
        ensures
            r == (match self {
                RunStage::Serving => RunWait::BodyOrStop,
                RunStage::WindingDown => RunWait::BodyOrDeadline(deadline_ms),
                RunStage::Over(_, _) => RunWait::Nothing,
            }),
    {
        match self {
            RunStage::Serving => RunWait::BodyOrStop,
            RunStage::WindingDown => RunWait::BodyOrDeadline(deadline_ms),
            RunStage::Over(_, _) => RunWait::Nothing,
        }
    }

    /// Where the run stands once `event` happened: a body that finishes ends it gracefully, with its
    /// result; a stop starts the deadline; a deadline that passes ends it by force, with none.
    pub fn next(self, event: RunEvent<T>) -> (r: RunStage<T>)
        ensures
            r == self.after(event),
    {
        match self {
            RunStage::Over(r, o) => RunStage::Over(r, o),
            RunStage::Serving => match event {
                RunEvent::BodyFinished(v) => RunStage::Over(Some(v), StopOutcome::Graceful),
                RunEvent::StopRequested => RunStage::WindingDown,
                RunEvent::DeadlinePassed => RunStage::Serving,
            },
            RunStage::WindingDown => match event {
                RunEvent::BodyFinished(v) => RunStage::Over(Some(v), StopOutcome::Graceful),
                RunEvent::DeadlinePassed => RunStage::Over(None, StopOutcome::Forced),
                RunEvent::StopRequested => RunStage::WindingDown,
            },
        }
    }
}

/// **Law: the service can always be stopped.** After a stop, whatever happens next of what the run
/// waits for, it is over.
pub proof fn law_a_stopped_run_ends_at_its_next_event<T>(event: RunEvent<T>)
    requires
        !(event is StopRequested),
    ensures
        RunStage::<T>::Serving.after(RunEvent::StopRequested).after(event) is Over,
{
}

/// **Law: a stop is reported for what it was.** A graceful end carries the body's own result; a
/// forced one carries none, and comes only when the deadline passed after a stop.
pub proof fn law_the_outcome_is_truthful<T>(stage: RunStage<T>, event: RunEvent<T>)
    requires
        !(stage is Over),
        stage.after(event) is Over,
    ensures
        stage.after(event)->Over_1 == StopOutcome::Graceful <==> (event matches RunEvent::BodyFinished(v)
            && stage.after(event)->Over_0 == Some(v)),
        stage.after(event)->Over_1 == StopOutcome::Forced <==> (event is DeadlinePassed && stage
            is WindingDown && stage.after(event)->Over_0 is None),
{
}

/// **Law: what ends a run.** A body that finishes ends it in any stage, with its result and gracefully; a stop
/// only starts the deadline, and asking again changes nothing; a deadline ends it only behind a stop, by
/// force and without a result; and what is over stays as it ended.
pub proof fn law_what_ends_a_run<T>(v: T, event: RunEvent<T>, r: Option<T>, o: StopOutcome)
    ensures
        RunStage::Serving.after(RunEvent::BodyFinished(v)) == RunStage::Over(Some(v), StopOutcome::Graceful),
        RunStage::WindingDown.after(RunEvent::BodyFinished(v)) == RunStage::Over(Some(v), StopOutcome::Graceful),
        RunStage::<T>::Serving.after(RunEvent::StopRequested) == RunStage::<T>::WindingDown,
        RunStage::<T>::WindingDown.after(RunEvent::StopRequested) == RunStage::<T>::WindingDown,
        RunStage::<T>::Serving.after(RunEvent::DeadlinePassed) == RunStage::<T>::Serving,
        RunStage::<T>::WindingDown.after(RunEvent::DeadlinePassed) == RunStage::<T>::Over(
            None,
            StopOutcome::Forced,
        ),
        RunStage::Over(r, o).after(event) == RunStage::Over(r, o),
        GRACEFUL_STOP_DEADLINE_MS == 20_000,
{
}

} // verus!
