use std::cell::RefCell;

use issue_delivery::issue_delivery_worker::{
    backoff_secs, finish_task, start_task, try_execute_task, valid_recipient, ExecutionOutcome,
    TaskError, EMPTY_QUEUE_BACKOFF_SECS, ERROR_BACKOFF_SECS,
};
use issue_delivery::model::Issue;
use issue_delivery::newsletters::{submit_issue, BodyData, Content};
use issue_delivery::store::{Store, StoreError};
use issue_delivery::worker_state::{
    worker_step, Transition, WorkerAction, WorkerEvent, WorkerState,
};

/// A mail transport that gives `answers` in turn, then fails, and notes
/// what it was asked to send.
struct Scripted {
    answers: RefCell<Vec<bool>>,
    sent: RefCell<Vec<(String, String, String, String)>>,
}

impl Scripted {
    fn send(&self, recipient: &String, issue: &Issue) -> bool {
        self.sent.borrow_mut().push((
            recipient.clone(),
            issue.title.clone(),
            issue.html_body.clone(),
            issue.text_body.clone(),
        ));
        let mut answers = self.answers.borrow_mut();
        if answers.is_empty() {
            false
        } else {
            answers.remove(0)
        }
    }

    fn asked(&self) -> Vec<(String, String, String, String)> {
        self.sent.borrow().clone()
    }
}

fn transport(answers: Vec<bool>) -> Scripted {
    Scripted { answers: RefCell::new(answers), sent: RefCell::new(Vec::new()) }
}

fn round(store: &mut Store, mail: &Scripted) -> Result<ExecutionOutcome, TaskError> {
    try_execute_task(store, |recipient: &String, issue: &Issue| mail.send(recipient, issue))
}

fn store_with(recipients: &[&str], issue_id: u128) -> Store {
    let mut store = Store::new();
    let body = BodyData {
        title: "Title".to_string(),
        content: Content { html: "<p>html</p>".to_string(), text: "text".to_string() },
    };
    let to: Vec<String> = recipients.iter().map(|r| r.to_string()).collect();
    submit_issue(&mut store, 1, "key".to_string(), &body, &to, 0, issue_id).unwrap();
    store
}

#[test]
fn addresses_need_one_at_sign_between_two_parts() {
    assert!(valid_recipient(&"ursula_le_guin@gmail.com".to_string()));
    assert!(valid_recipient(&"a@b".to_string()));
    assert!(!valid_recipient(&"".to_string()));
    assert!(!valid_recipient(&"definitely-not-an-email".to_string()));
    assert!(!valid_recipient(&"@gmail.com".to_string()));
    assert!(!valid_recipient(&"ursula@".to_string()));
    assert!(!valid_recipient(&"@".to_string()));
    assert!(!valid_recipient(&"a@b@c".to_string()));
    assert!(valid_recipient(&"é@ü".to_string()));
}

#[test]
fn empty_queue_is_reported_and_nothing_is_sent() {
    let mut store = Store::new();
    let mail = transport(vec![true]);
    let r = round(&mut store, &mail);
    assert_eq!(r, Ok(ExecutionOutcome::EmptyQueue));
    assert!(mail.asked().is_empty());
    assert_eq!(backoff_secs(&r), 10);
}

#[test]
fn delivered_task_is_deleted() {
    let mut store = store_with(&["a@x.org", "b@x.org"], 7);
    let mail = transport(vec![true]);
    let r = round(&mut store, &mail);
    assert_eq!(r, Ok(ExecutionOutcome::TaskCompleted));
    assert_eq!(backoff_secs(&r), 0);
    assert_eq!(
        mail.asked(),
        vec![(
            "a@x.org".to_string(),
            "Title".to_string(),
            "<p>html</p>".to_string(),
            "text".to_string()
        )]
    );
    assert_eq!(store.queue_len(), 1);
    assert_eq!(store.row(0).task.recipient, "b@x.org");
    assert_eq!(store.row(0).claimed_by, None);
}

#[test]
fn queue_is_drained_one_task_a_round() {
    let mut store = store_with(&["a@x.org", "b@x.org", "c@x.org"], 7);
    let mail = transport(vec![true, true, true, true]);
    for left in [2usize, 1, 0] {
        assert_eq!(round(&mut store, &mail), Ok(ExecutionOutcome::TaskCompleted));
        assert_eq!(store.queue_len(), left);
    }
    assert_eq!(round(&mut store, &mail), Ok(ExecutionOutcome::EmptyQueue));
    let to: Vec<String> = mail.asked().iter().map(|s| s.0.clone()).collect();
    assert_eq!(to, vec!["a@x.org".to_string(), "b@x.org".to_string(), "c@x.org".to_string()]);
}

#[test]
fn failed_delivery_keeps_the_task_for_ever() {
    let mut store = store_with(&["a@x.org"], 7);
    let mail = transport(Vec::new());
    for _ in 0..25 {
        let r = round(&mut store, &mail);
        assert_eq!(r, Err(TaskError::Delivery));
        assert_eq!(backoff_secs(&r), 1);
        assert_eq!(store.queue_len(), 1);
        assert_eq!(store.row(0).task.recipient, "a@x.org");
        assert_eq!(store.row(0).task.issue_id, 7);
        assert_eq!(store.row(0).claimed_by, None);
    }
    assert_eq!(mail.asked().len(), 25);
    // and it is delivered once the transport is back
    let mail = transport(vec![true]);
    assert_eq!(round(&mut store, &mail), Ok(ExecutionOutcome::TaskCompleted));
    assert_eq!(store.queue_len(), 0);
}

#[test]
fn malformed_recipient_is_released_and_tried_again() {
    let mut store = store_with(&["not-an-address", "b@x.org"], 7);
    let mail = transport(vec![true, true]);
    for _ in 0..3 {
        let r = round(&mut store, &mail);
        assert_eq!(r, Err(TaskError::MalformedRecipient));
        assert_eq!(backoff_secs(&r), ERROR_BACKOFF_SECS);
        assert_eq!(store.queue_len(), 2);
        assert_eq!(store.row(0).claimed_by, None);
    }
    assert!(mail.asked().is_empty());
}

#[test]
fn two_claims_never_hold_the_same_task() {
    let mut store = store_with(&["a@x.org", "b@x.org"], 7);
    let first = store.try_claim_one().unwrap().unwrap();
    let second = store.try_claim_one().unwrap().unwrap();
    assert_eq!(first.recipient(), "a@x.org");
    assert_eq!(second.recipient(), "b@x.org");
    assert_eq!(first.issue_id(), 7);
    assert_ne!(store.row(0).claimed_by, store.row(1).claimed_by);
    assert!(store.row(0).claimed_by.is_some());
    assert!(store.row(1).claimed_by.is_some());
    // every row is claimed: a third claimant finds nothing
    assert!(store.try_claim_one().unwrap().is_none());
    let mail = transport(vec![true]);
    assert_eq!(round(&mut store, &mail), Ok(ExecutionOutcome::EmptyQueue));
    // a released task can be claimed again, a completed one is gone
    store.release(first);
    store.complete(second).unwrap();
    assert_eq!(store.queue_len(), 1);
    let again = store.try_claim_one().unwrap().unwrap();
    assert_eq!(again.recipient(), "a@x.org");
}

#[test]
fn completing_deletes_the_claimed_row_and_no_other() {
    let mut store = store_with(&["a@x.org", "b@x.org", "c@x.org"], 7);
    let first = store.try_claim_one().unwrap().unwrap();
    let second = store.try_claim_one().unwrap().unwrap();
    store.complete(second).unwrap();
    assert_eq!(store.queue_len(), 2);
    assert_eq!(store.row(0).task.recipient, "a@x.org");
    assert!(store.row(0).claimed_by.is_some());
    assert_eq!(store.row(1).task.recipient, "c@x.org");
    assert_eq!(store.row(1).claimed_by, None);
    store.complete(first).unwrap();
    assert_eq!(store.queue_len(), 1);
    assert_eq!(store.row(0).task.recipient, "c@x.org");
}

#[test]
fn a_claim_of_another_store_is_unknown() {
    let mut store = store_with(&["a@x.org"], 7);
    let mut other = Store::new();
    let claimed = store.try_claim_one().unwrap().unwrap();
    assert_eq!(other.complete(claimed).unwrap_err(), StoreError::UnknownScope);
    assert_eq!(store.queue_len(), 1);
}

#[test]
fn start_and_finish_bracket_one_delivery() {
    let mut store = store_with(&["a@x.org"], 7);
    let delivery = start_task(&mut store).unwrap().unwrap();
    assert_eq!(delivery.recipient(), "a@x.org");
    assert_eq!(delivery.issue().issue_id, 7);
    assert_eq!(delivery.issue().title, "Title");
    assert!(store.row(0).claimed_by.is_some());
    assert!(start_task(&mut store).unwrap().is_none());
    assert_eq!(finish_task(&mut store, delivery, false), Err(TaskError::Delivery));
    assert_eq!(store.row(0).claimed_by, None);
    let delivery = start_task(&mut store).unwrap().unwrap();
    assert_eq!(finish_task(&mut store, delivery, true), Ok(ExecutionOutcome::TaskCompleted));
    assert_eq!(store.queue_len(), 0);
}

#[test]
fn finishing_twice_finds_no_claim() {
    let mut store = store_with(&["a@x.org"], 7);
    let mut other = Store::new();
    let delivery = start_task(&mut store).unwrap().unwrap();
    assert_eq!(
        finish_task(&mut other, delivery, true),
        Err(TaskError::Store(StoreError::UnknownScope))
    );
}

#[test]
fn backoff_is_ten_seconds_when_empty_and_one_after_an_error() {
    assert_eq!(EMPTY_QUEUE_BACKOFF_SECS, 10);
    assert_eq!(ERROR_BACKOFF_SECS, 1);
    assert_eq!(backoff_secs(&Ok(ExecutionOutcome::EmptyQueue)), 10);
    assert_eq!(backoff_secs(&Ok(ExecutionOutcome::TaskCompleted)), 0);
    assert_eq!(backoff_secs(&Err(TaskError::Delivery)), 1);
    assert_eq!(backoff_secs(&Err(TaskError::MalformedRecipient)), 1);
    assert_eq!(backoff_secs(&Err(TaskError::Store(StoreError::ScopesExhausted))), 1);
}

fn step(state: WorkerState, event: WorkerEvent) -> (WorkerState, WorkerAction, u64) {
    let t: Transition = worker_step(state, event).unwrap();
    (t.next, t.action, t.backoff_secs)
}

#[test]
fn worker_walks_through_a_delivery() {
    assert_eq!(
        step(WorkerState::Idle, WorkerEvent::Wake),
        (WorkerState::Claiming, WorkerAction::Claim, 0)
    );
    assert_eq!(
        step(WorkerState::Claiming, WorkerEvent::Claimed),
        (WorkerState::Delivering, WorkerAction::Prepare, 0)
    );
    assert_eq!(
        step(WorkerState::Delivering, WorkerEvent::Prepared),
        (WorkerState::Resolving, WorkerAction::Send, 0)
    );
    assert_eq!(
        step(WorkerState::Resolving, WorkerEvent::Sent),
        (WorkerState::Idle, WorkerAction::Complete, 0)
    );
}

#[test]
fn worker_backs_off_and_releases_on_failure() {
    assert_eq!(
        step(WorkerState::Claiming, WorkerEvent::QueueEmpty),
        (WorkerState::Idle, WorkerAction::Sleep, 10)
    );
    assert_eq!(
        step(WorkerState::Claiming, WorkerEvent::StoreFailed),
        (WorkerState::Idle, WorkerAction::Sleep, 1)
    );
    assert_eq!(
        step(WorkerState::Idle, WorkerEvent::StoreFailed),
        (WorkerState::Idle, WorkerAction::Sleep, 1)
    );
    assert_eq!(
        step(WorkerState::Delivering, WorkerEvent::RecipientMalformed),
        (WorkerState::Idle, WorkerAction::Release, 1)
    );
    assert_eq!(
        step(WorkerState::Delivering, WorkerEvent::StoreFailed),
        (WorkerState::Idle, WorkerAction::Release, 1)
    );
    assert_eq!(
        step(WorkerState::Resolving, WorkerEvent::SendFailed),
        (WorkerState::Idle, WorkerAction::Release, 1)
    );
}

#[test]
fn worker_refuses_events_out_of_turn() {
    assert_eq!(worker_step(WorkerState::Idle, WorkerEvent::Sent), None);
    assert_eq!(worker_step(WorkerState::Idle, WorkerEvent::Claimed), None);
    assert_eq!(worker_step(WorkerState::Claiming, WorkerEvent::Sent), None);
    assert_eq!(worker_step(WorkerState::Claiming, WorkerEvent::Wake), None);
    assert_eq!(worker_step(WorkerState::Delivering, WorkerEvent::Sent), None);
    assert_eq!(worker_step(WorkerState::Delivering, WorkerEvent::SendFailed), None);
    assert_eq!(worker_step(WorkerState::Resolving, WorkerEvent::Prepared), None);
    assert_eq!(worker_step(WorkerState::Resolving, WorkerEvent::StoreFailed), None);
}
