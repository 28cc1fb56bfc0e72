//! The worker as a state machine: what to do next, given where the worker
//! stands and what has just happened. Whoever drives the worker performs
//! the action and reports the event that follows.

use vstd::prelude::*;
use crate::issue_delivery_worker::{EMPTY_QUEUE_BACKOFF_SECS, ERROR_BACKOFF_SECS};

verus! {

/// Where the worker stands.
#[derive(Clone, Copy, Debug, PartialEq, Eq, Structural)]
pub enum WorkerState {
    /// Between rounds; nothing is claimed.
    Idle,
    /// Asking the queue for a task.
    Claiming,
    /// Holding a task; checking its address and looking up its issue.
    Delivering,
    /// Holding a task that was handed to the mail transport.
    Resolving,
}

/// What has just happened.
#[derive(Clone, Copy, Debug, PartialEq, Eq, Structural)]
pub enum WorkerEvent {
    /// The wait is over.
    Wake,
    /// The queue had no free task.
    QueueEmpty,
    /// A task was claimed.
    Claimed,
    /// The address of the claimed task is malformed.
    RecipientMalformed,
    /// The address is sound and the issue was found.
    Prepared,
    /// The mail transport confirmed the delivery.
    Sent,
    /// The mail transport failed.
    SendFailed,
    /// The store failed.
    StoreFailed,
}

/// What to do next.
#[derive(Clone, Copy, Debug, PartialEq, Eq, Structural)]
pub enum WorkerAction {
    /// Ask the queue for a task.
    Claim,
    /// Check the address of the claimed task and look up its issue.
    Prepare,
    /// Hand the task to the mail transport.
    Send,
    /// Delete the claimed task, then wait.
    Complete,
    /// Let the claimed task go, then wait.
    Release,
    /// Wait.
    Sleep,
}

/// One step of the worker.
#[derive(Clone, Copy, Debug, PartialEq, Eq, Structural)]
pub struct Transition {
    pub next: WorkerState,
    pub action: WorkerAction,
    /// Seconds to wait once the action is done.
    pub backoff_secs: u64,
}

/// The step that `event` causes in `state`, or `None` where that event
/// cannot follow what the worker did last.
pub open spec fn transition(state: WorkerState, event: WorkerEvent) -> Option<Transition> {
    match (state, event) {
        (WorkerState::Idle, WorkerEvent::Wake) => Some(
            Transition { next: WorkerState::Claiming, action: WorkerAction::Claim, backoff_secs: 0 },
        ),
        (WorkerState::Idle, WorkerEvent::StoreFailed) => Some(
            Transition {
                next: WorkerState::Idle,
                action: WorkerAction::Sleep,
                backoff_secs: ERROR_BACKOFF_SECS,
            },
        ),
        (WorkerState::Claiming, WorkerEvent::QueueEmpty) => Some(
            Transition {
                next: WorkerState::Idle,
                action: WorkerAction::Sleep,
                backoff_secs: EMPTY_QUEUE_BACKOFF_SECS,
            },
        ),
        (WorkerState::Claiming, WorkerEvent::StoreFailed) => Some(
            Transition {
                next: WorkerState::Idle,
                action: WorkerAction::Sleep,
                backoff_secs: ERROR_BACKOFF_SECS,
            },
        ),
        (WorkerState::Claiming, WorkerEvent::Claimed) => Some(
            Transition {
                next: WorkerState::Delivering,
                action: WorkerAction::Prepare,
                backoff_secs: 0,
            },
        ),
        (WorkerState::Delivering, WorkerEvent::Prepared) => Some(
            Transition { next: WorkerState::Resolving, action: WorkerAction::Send, backoff_secs: 0 },
        ),
        (WorkerState::Delivering, WorkerEvent::RecipientMalformed) => Some(
            Transition {
                next: WorkerState::Idle,
                action: WorkerAction::Release,
                backoff_secs: ERROR_BACKOFF_SECS,
            },
        ),
        (WorkerState::Delivering, WorkerEvent::StoreFailed) => Some(
            Transition {
                next: WorkerState::Idle,
                action: WorkerAction::Release,
                backoff_secs: ERROR_BACKOFF_SECS,
            },
        ),
        (WorkerState::Resolving, WorkerEvent::Sent) => Some(
            Transition { next: WorkerState::Idle, action: WorkerAction::Complete, backoff_secs: 0 },
        ),
        (WorkerState::Resolving, WorkerEvent::SendFailed) => Some(
            Transition {
                next: WorkerState::Idle,
                action: WorkerAction::Release,
                backoff_secs: ERROR_BACKOFF_SECS,
            },
        ),
        _ => None,
    }
}

/// The worker holds a claimed task in this state.
pub open spec fn holds_task(state: WorkerState) -> bool {
    state == WorkerState::Delivering || state == WorkerState::Resolving
}

fn moved(next: WorkerState, action: WorkerAction, backoff_secs: u64) -> (t: Option<Transition>)
    ensures
        t == Some(Transition { next, action, backoff_secs }),
{
    Some(Transition { next, action, backoff_secs })
}

/// Decides the worker's next step.
///
/// A task is deleted only on the confirmation of the mail transport; every
/// other way out of a state that holds a task lets the task go; and the
/// worker waits after every round but one that delivered.
pub fn worker_step(state: WorkerState, event: WorkerEvent) -> (t: Option<Transition>)
    ensures
        t == transition(state, event),
        match t {
            Some(step) => {
                &&& step.action == WorkerAction::Complete <==> (state == WorkerState::Resolving
                    && event == WorkerEvent::Sent)
                &&& holds_task(state) && !holds_task(step.next) ==> (step.action
                    == WorkerAction::Complete || step.action == WorkerAction::Release)
                &&& !holds_task(state) ==> step.action != WorkerAction::Release
                &&& step.backoff_secs > 0 <==> (step.next == WorkerState::Idle && step.action
                    != WorkerAction::Complete)
            },
            None => true,
        },
{
    match state {
        WorkerState::Idle => match event {
            WorkerEvent::Wake => moved(WorkerState::Claiming, WorkerAction::Claim, 0),
            WorkerEvent::StoreFailed => moved(
                WorkerState::Idle,
                WorkerAction::Sleep,
                ERROR_BACKOFF_SECS,
            ),
            _ => None,
        },
        WorkerState::Claiming => match event {
            WorkerEvent::QueueEmpty => moved(
                WorkerState::Idle,
                WorkerAction::Sleep,
                EMPTY_QUEUE_BACKOFF_SECS,
            ),
            WorkerEvent::StoreFailed => moved(
                WorkerState::Idle,
                WorkerAction::Sleep,
                ERROR_BACKOFF_SECS,
            ),
            WorkerEvent::Claimed => moved(WorkerState::Delivering, WorkerAction::Prepare, 0),
            _ => None,
        },
        WorkerState::Delivering => match event {
            WorkerEvent::Prepared => moved(WorkerState::Resolving, WorkerAction::Send, 0),
            WorkerEvent::RecipientMalformed | WorkerEvent::StoreFailed => moved(
                WorkerState::Idle,
                WorkerAction::Release,
                ERROR_BACKOFF_SECS,
            ),
            _ => None,
        },
        WorkerState::Resolving => match event {
            WorkerEvent::Sent => moved(WorkerState::Idle, WorkerAction::Complete, 0),
            WorkerEvent::SendFailed => moved(
                WorkerState::Idle,
                WorkerAction::Release,
                ERROR_BACKOFF_SECS,
            ),
            _ => None,
        },
    }
}

} // verus!
