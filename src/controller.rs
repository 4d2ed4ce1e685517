//! The cancellable task loop as a state machine: the caller performs each
//! action (capture, solve, sleep) and hands back what it observed.

use crate::signature::{Similarity, HEADER_THRESHOLD_DEN, HEADER_THRESHOLD_NUM};
use std::sync::{Arc, Mutex};
use vstd::prelude::*;

verus! {

#[verifier::external_type_specification]
#[verifier::external_body]
#[verifier::reject_recursive_types(T)]
pub struct ExMutex<T: ?Sized>(Mutex<T>);

/// The shared cancellation flag of one running task: `true` while it should run.
pub type ThreadStatus = Arc<Mutex<bool>>;

/// Relies on `Mutex::lock`: the flag as another thread last wrote it, or `None`
/// when a thread panicked while holding the lock.
#[verifier::external_body]
fn read_status(status: &ThreadStatus) -> (r: Option<bool>) {
    status.lock().ok().map(|guard| *guard)
}

/// Whether the task owning `thread_status` should keep running. A flag whose
/// writer panicked while holding it reads as stopped.
pub fn check_thread_status(thread_status: &ThreadStatus) -> (r: bool) {
    match read_status(thread_status) {
        Some(running) => running,
        None => false,
    }
}

/// Where a task stands.
#[derive(Clone, Copy, Debug, PartialEq, Eq, Structural)]
pub enum TaskPhase {
    Idle,
    Polling,
    Acting,
    CoolingDown,
    Stopped,
}

/// What the caller observed after performing the last action; `running` is the
/// cancellation flag as read just before.
#[derive(Clone, Copy, Debug, PartialEq, Eq, Structural)]
pub enum TaskEvent {
    Start { running: bool },
    HeaderScored { running: bool, header: Similarity },
    Solved { running: bool },
    Slept { running: bool },
}

/// What the caller must do next.
#[derive(Clone, Copy, Debug, PartialEq, Eq, Structural)]
pub enum TaskAction {
    /// Capture the header region and score it against the header template.
    CaptureHeader,
    /// Capture the puzzle, match it, plan the moves and press them.
    Solve,
    /// Sleep for the given number of milliseconds.
    Sleep { millis: u64 },
    /// Leave the loop.
    Exit,
}

/// Fixed delays of a task, in milliseconds.
#[derive(Clone, Copy, Debug, PartialEq, Eq, Structural)]
pub struct TaskTiming {
    /// Interval between two header polls.
    pub poll_millis: u64,
    /// Time for the game to settle after a solved puzzle.
    pub settle_millis: u64,
}

impl TaskEvent {
    pub open spec fn running_spec(self) -> bool {
        match self {
            TaskEvent::Start { running } => running,
            TaskEvent::HeaderScored { running, .. } => running,
            TaskEvent::Solved { running } => running,
            TaskEvent::Slept { running } => running,
        }
    }

    /// The cancellation flag carried by the event.
    pub fn running(&self) -> (r: bool)
        ensures
            r == self.running_spec(),
    {
        match self {
            TaskEvent::Start { running } => *running,
            TaskEvent::HeaderScored { running, .. } => *running,
            TaskEvent::Solved { running } => *running,
            TaskEvent::Slept { running } => *running,
        }
    }
}

/// The transition table. A cleared flag stops the task from any phase; an
/// event that does not answer the phase's action is a contract violation and
/// stops it too.
pub open spec fn step_spec(timing: TaskTiming, phase: TaskPhase, event: TaskEvent) -> (
    TaskPhase,
    TaskAction,
) {
    if phase == TaskPhase::Stopped || !event.running_spec() {
        (TaskPhase::Stopped, TaskAction::Exit)
    } else {
        match (phase, event) {
            (TaskPhase::Idle, TaskEvent::Start { .. }) => (
                TaskPhase::Polling,
                TaskAction::CaptureHeader,
            ),
            (TaskPhase::Polling, TaskEvent::HeaderScored { header, .. }) => {
                if header.exceeds_spec(HEADER_THRESHOLD_NUM, HEADER_THRESHOLD_DEN) {
                    (TaskPhase::Acting, TaskAction::Solve)
                } else {
                    (TaskPhase::Polling, TaskAction::Sleep { millis: timing.poll_millis })
                }
            },
            (TaskPhase::Polling, TaskEvent::Slept { .. }) => (
                TaskPhase::Polling,
                TaskAction::CaptureHeader,
            ),
            (TaskPhase::Acting, TaskEvent::Solved { .. }) => (
                TaskPhase::CoolingDown,
                TaskAction::Sleep { millis: timing.settle_millis },
            ),
            (TaskPhase::CoolingDown, TaskEvent::Slept { .. }) => (
                TaskPhase::Polling,
                TaskAction::CaptureHeader,
            ),
            _ => (TaskPhase::Stopped, TaskAction::Exit),
        }
    }
}

/// Decides the next phase and action from the current phase and what the
/// caller observed.
pub fn step(timing: TaskTiming, phase: TaskPhase, event: TaskEvent) -> (r: (TaskPhase, TaskAction))
    ensures
        r == step_spec(timing, phase, event),
{
    if phase == TaskPhase::Stopped || !event.running() {
        return (TaskPhase::Stopped, TaskAction::Exit);
    }
    match (phase, event) {
        (TaskPhase::Idle, TaskEvent::Start { .. }) => (TaskPhase::Polling, TaskAction::CaptureHeader),
        (TaskPhase::Polling, TaskEvent::HeaderScored { header, .. }) => {
            if header.above_header_threshold() {
                (TaskPhase::Acting, TaskAction::Solve)
            } else {
                (TaskPhase::Polling, TaskAction::Sleep { millis: timing.poll_millis })
            }
        },
        (TaskPhase::Polling, TaskEvent::Slept { .. }) => (TaskPhase::Polling, TaskAction::CaptureHeader),
        (TaskPhase::Acting, TaskEvent::Solved { .. }) => (
            TaskPhase::CoolingDown,
            TaskAction::Sleep { millis: timing.settle_millis },
        ),
        (TaskPhase::CoolingDown, TaskEvent::Slept { .. }) => (
            TaskPhase::Polling,
            TaskAction::CaptureHeader,
        ),
        _ => (TaskPhase::Stopped, TaskAction::Exit),
    }
}

/// A cleared flag is acted on at the very next step, whatever the phase: the
/// task stops and leaves its loop.
pub proof fn lemma_cancel_stops(timing: TaskTiming, phase: TaskPhase, event: TaskEvent)
    requires
        !event.running_spec(),
    ensures
        step_spec(timing, phase, event) == (TaskPhase::Stopped, TaskAction::Exit),
{
}

/// A stopped task stays stopped.
pub proof fn lemma_stopped_is_terminal(timing: TaskTiming, event: TaskEvent)
    ensures
        step_spec(timing, TaskPhase::Stopped, event) == (TaskPhase::Stopped, TaskAction::Exit),
{
}

/// While polling, the only wait between two reads of the flag is one poll interval.
pub proof fn lemma_polling_waits_one_interval(timing: TaskTiming, event: TaskEvent, millis: u64)
    requires
        step_spec(timing, TaskPhase::Polling, event).1 == (TaskAction::Sleep { millis }),
    ensures
        millis == timing.poll_millis,
{
}

/// A header scored above the threshold moves a running poller to acting;
/// one at or below it keeps polling.
pub proof fn lemma_header_triggers_acting(timing: TaskTiming, header: Similarity)
    ensures
        step_spec(timing, TaskPhase::Polling, TaskEvent::HeaderScored { running: true, header }).0
            == if header.exceeds_spec(HEADER_THRESHOLD_NUM, HEADER_THRESHOLD_DEN) {
            TaskPhase::Acting
        } else {
            TaskPhase::Polling
        },
{
}

} // verus!
