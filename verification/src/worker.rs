//! Decision logic of the ingestion worker. The worker loop itself performs
//! I/O and sleeps outside this crate; each iteration it observes the pause
//! flag and, unless paused, the outcome of one read attempt, and hands the
//! observation here. This function decides the state the worker enters and
//! the single action to perform: append the completed line, or back off for
//! a short or a long delay. Errors and end-of-input are never fatal: every
//! input leads back to another iteration.

use vstd::prelude::*;

verus! {

/// Delay before retrying after end-of-input or a transient read failure.
pub const SHORT_DELAY_MS: u64 = 10;

/// Poll delay while paused, long enough to avoid busy-waiting.
pub const LONG_DELAY_MS: u64 = 100;

/// The worker's state after an iteration.
#[derive(PartialEq, Eq, Structural, Clone, Copy, Debug)]
pub enum WorkerState {
    /// Consuming available lines.
    Reading,
    /// Hit end-of-input; retrying shortly.
    WaitingForData,
    /// The pause flag is set; polling it slowly.
    Paused,
    /// A transient read failure; retrying shortly.
    RecoveringFromError,
}

/// What the worker observed this iteration: the pause flag set (checked
/// before any read), or the outcome of one read attempt.
pub enum WorkerInput {
    /// The external pause flag was set; nothing was read.
    PauseActive,
    /// A completed line became available, trailing line terminator already
    /// stripped by the tailing collaborator.
    Line(String),
    /// No full line is currently available (end of the input so far).
    EndOfInput,
    /// A transient read failure.
    ReadError,
}

/// The single action the worker performs before the next iteration.
pub enum WorkerAction {
    /// Append this line to the log store, holding its lock only for the
    /// duration of the append.
    Append(String),
    /// Sleep `SHORT_DELAY_MS` milliseconds.
    SleepShort,
    /// Sleep `LONG_DELAY_MS` milliseconds.
    SleepLong,
}

/// One decision of the worker loop. A set pause flag always parks the worker
/// (`Paused`, long poll delay); a completed line is appended and reading
/// continues; end-of-input and transient errors each back off for a short
/// delay and retry, entering `WaitingForData` or `RecoveringFromError`. The
/// next available line resumes `Reading` from any of those states.
pub fn worker_step(input: WorkerInput) -> (r: (WorkerState, WorkerAction))
    ensures
        input is PauseActive ==> r == (WorkerState::Paused, WorkerAction::SleepLong),
        (input matches WorkerInput::Line(line) ==> r == (
            WorkerState::Reading,
            WorkerAction::Append(line),
        )),
        input is EndOfInput ==> r == (WorkerState::WaitingForData, WorkerAction::SleepShort),
        input is ReadError ==> r == (WorkerState::RecoveringFromError, WorkerAction::SleepShort),
{
    match input {
        WorkerInput::PauseActive => (WorkerState::Paused, WorkerAction::SleepLong),
        WorkerInput::Line(line) => (WorkerState::Reading, WorkerAction::Append(line)),
        WorkerInput::EndOfInput => (WorkerState::WaitingForData, WorkerAction::SleepShort),
        WorkerInput::ReadError => (WorkerState::RecoveringFromError, WorkerAction::SleepShort),
    }
}

} // verus!
