//! The rows of the backing store and what they hold as mathematical values.

use vstd::prelude::*;
use crate::response::{CapturedResponse, ResponseView};

verus! {

/// What an issue holds.
pub struct IssueView {
    pub issue_id: u128,
    pub title: Seq<char>,
    pub html_body: Seq<char>,
    pub text_body: Seq<char>,
    pub created_at: u64,
}

/// The content of one newsletter issue. It never changes once written.
#[derive(Debug)]
pub struct Issue {
    pub issue_id: u128,
    pub title: String,
    pub html_body: String,
    pub text_body: String,
    pub created_at: u64,
}

impl View for Issue {
    type V = IssueView;

    open spec fn view(&self) -> IssueView {
        IssueView {
            issue_id: self.issue_id,
            title: self.title@,
            html_body: self.html_body@,
            text_body: self.text_body@,
            created_at: self.created_at,
        }
    }
}

impl Issue {
    /// A second issue with the same content.
    pub fn duplicate(&self) -> (copy: Issue)
        ensures
            copy@ == self@,
    {
        Issue {
            issue_id: self.issue_id,
            title: self.title.clone(),
            html_body: self.html_body.clone(),
            text_body: self.text_body.clone(),
            created_at: self.created_at,
        }
    }
}

/// What a delivery task holds.
pub struct TaskView {
    pub issue_id: u128,
    pub recipient: Seq<char>,
}

/// One pending delivery: an issue and the address it goes to.
#[derive(Debug)]
pub struct DeliveryTask {
    pub issue_id: u128,
    pub recipient: String,
}

impl View for DeliveryTask {
    type V = TaskView;

    open spec fn view(&self) -> TaskView {
        TaskView { issue_id: self.issue_id, recipient: self.recipient@ }
    }
}

/// What an idempotency record holds. `owner` names the scope that has
/// inserted the record and not yet finalized it.
pub struct RecordView {
    pub actor_id: u128,
    pub key: Seq<char>,
    pub response: Option<ResponseView>,
    pub created_at: u64,
    pub owner: Option<u64>,
}

/// The trace of one submission: who submitted under which key, and the
/// response once it is captured.
#[derive(Debug)]
pub struct IdempotencyRecord {
    pub actor_id: u128,
    pub key: String,
    pub response: Option<CapturedResponse>,
    pub created_at: u64,
    pub owner: Option<u64>,
}

/// The captured response as a mathematical value, if there is one.
pub open spec fn response_view(response: Option<CapturedResponse>) -> Option<ResponseView> {
    match response {
        Some(r) => Some(r@),
        None => None,
    }
}

impl View for IdempotencyRecord {
    type V = RecordView;

    open spec fn view(&self) -> RecordView {
        RecordView {
            actor_id: self.actor_id,
            key: self.key@,
            response: response_view(self.response),
            created_at: self.created_at,
            owner: self.owner,
        }
    }
}

/// One row of the queue: a task, and the claim that holds it, if any.
pub struct RowView {
    pub task: TaskView,
    pub claimed_by: Option<u64>,
}

/// One row of the queue.
#[derive(Debug)]
pub struct QueueRow {
    pub task: DeliveryTask,
    pub claimed_by: Option<u64>,
}

impl View for QueueRow {
    type V = RowView;

    open spec fn view(&self) -> RowView {
        RowView { task: self.task@, claimed_by: self.claimed_by }
    }
}

/// The tasks of one fan-out: one for each recipient, in order, all of the
/// same issue.
pub open spec fn fan_out(issue_id: u128, recipients: Seq<Seq<char>>) -> Seq<TaskView> {
    Seq::new(recipients.len(), |i: int| TaskView { issue_id, recipient: recipients[i] })
}

/// Rows that hold `tasks`, none of them claimed.
pub open spec fn unclaimed_rows(tasks: Seq<TaskView>) -> Seq<RowView> {
    Seq::new(tasks.len(), |i: int| RowView { task: tasks[i], claimed_by: None })
}

/// The texts of a list of strings.
pub open spec fn texts(strings: Seq<String>) -> Seq<Seq<char>> {
    Seq::new(strings.len(), |i: int| strings[i]@)
}

/// Among `issues` there is one with the id `issue_id`.
pub open spec fn catalog_has(issues: Seq<IssueView>, issue_id: u128) -> bool {
    exists|i: int| 0 <= i < issues.len() && (#[trigger] issues[i]).issue_id == issue_id
}

/// Where among `issues` the one with the id `issue_id` stands.
pub open spec fn catalog_index(issues: Seq<IssueView>, issue_id: u128) -> int {
    choose|i: int| 0 <= i < issues.len() && (#[trigger] issues[i]).issue_id == issue_id
}

/// Record `i` of `records` is the one of `actor_id` under `key`.
pub open spec fn record_holds(
    records: Seq<RecordView>,
    i: int,
    actor_id: u128,
    key: Seq<char>,
) -> bool {
    0 <= i < records.len() && records[i].actor_id == actor_id && records[i].key == key
}

/// Record `i` of `records` was inserted by the open scope `scope`.
pub open spec fn record_owned(records: Seq<RecordView>, i: int, scope: u64) -> bool {
    0 <= i < records.len() && records[i].owner == Some(scope)
}

/// Row `i` of `queue` is held by the claim `scope`.
pub open spec fn row_claimed(queue: Seq<RowView>, i: int, scope: u64) -> bool {
    0 <= i < queue.len() && queue[i].claimed_by == Some(scope)
}

/// Row `i` of `queue` is free, and every row before it is claimed.
pub open spec fn first_free_in(queue: Seq<RowView>, i: int) -> bool {
    0 <= i < queue.len() && queue[i].claimed_by.is_none() && forall|j: int|
        0 <= j < i ==> (#[trigger] queue[j]).claimed_by.is_some()
}

/// The whole store as mathematical values.
pub struct StoreView {
    pub records: Seq<RecordView>,
    pub issues: Seq<IssueView>,
    pub queue: Seq<RowView>,
    pub next_scope: u64,
}

impl StoreView {
    /// Record `i` is the one of `actor_id` under `key`.
    pub open spec fn holds_key(self, i: int, actor_id: u128, key: Seq<char>) -> bool {
        record_holds(self.records, i, actor_id, key)
    }

    /// There is a record of `actor_id` under `key`.
    pub open spec fn knows(self, actor_id: u128, key: Seq<char>) -> bool {
        exists|i: int| record_holds(self.records, i, actor_id, key)
    }

    /// Where the record of `actor_id` under `key` stands.
    pub open spec fn key_index(self, actor_id: u128, key: Seq<char>) -> int {
        choose|i: int| record_holds(self.records, i, actor_id, key)
    }

    /// The response saved for `actor_id` under `key`, if a finished
    /// submission left one.
    pub open spec fn saved(self, actor_id: u128, key: Seq<char>) -> Option<ResponseView> {
        if self.knows(actor_id, key) {
            self.records[self.key_index(actor_id, key)].response
        } else {
            None
        }
    }

    /// Record `i` was inserted by the open scope `scope`.
    pub open spec fn owned_by(self, i: int, scope: u64) -> bool {
        record_owned(self.records, i, scope)
    }

    /// The scope `scope` is open: it holds a record that it has not finalized.
    pub open spec fn is_open(self, scope: u64) -> bool {
        exists|i: int| record_owned(self.records, i, scope)
    }

    /// Where the record of the open scope `scope` stands.
    pub open spec fn owner_index(self, scope: u64) -> int {
        choose|i: int| record_owned(self.records, i, scope)
    }

    /// The catalog holds an issue with the id `issue_id`.
    pub open spec fn has_issue(self, issue_id: u128) -> bool {
        catalog_has(self.issues, issue_id)
    }

    /// Where the issue with the id `issue_id` stands.
    pub open spec fn issue_index(self, issue_id: u128) -> int {
        catalog_index(self.issues, issue_id)
    }

    /// Row `i` is held by the claim `scope`.
    pub open spec fn claimed_at(self, i: int, scope: u64) -> bool {
        row_claimed(self.queue, i, scope)
    }

    /// The claim `scope` holds a row.
    pub open spec fn is_claimed(self, scope: u64) -> bool {
        exists|i: int| row_claimed(self.queue, i, scope)
    }

    /// Where the row held by the claim `scope` stands.
    pub open spec fn claim_index(self, scope: u64) -> int {
        choose|i: int| row_claimed(self.queue, i, scope)
    }

    /// Row `i` is free, and every row before it is claimed.
    pub open spec fn first_free(self, i: int) -> bool {
        first_free_in(self.queue, i)
    }

    /// Some row is free.
    pub open spec fn has_free(self) -> bool {
        exists|i: int| 0 <= i < self.queue.len() && (#[trigger] self.queue[i]).claimed_by.is_none()
    }

    /// Where the first free row stands.
    pub open spec fn free_index(self) -> int {
        choose|i: int| first_free_in(self.queue, i)
    }

    /// How many rows of the queue belong to the issue `issue_id`.
    pub open spec fn tasks_of(self, issue_id: u128) -> nat {
        self.queue.filter(|row: RowView| row.task.issue_id == issue_id).len()
    }

    /// What holds of every store: a pair of actor and key has one record at
    /// most; a record is empty exactly while the scope that inserted it is
    /// open; every open scope and every claim has an id of its own, below
    /// the next one to be given out; an issue id names one issue; and the
    /// issue of every row of the queue is in the catalog.
    pub open spec fn wf(self) -> bool {
        &&& forall|i: int, j: int|
            0 <= i < j < self.records.len() ==> !((#[trigger] self.records[i]).actor_id == (
            #[trigger] self.records[j]).actor_id && self.records[i].key == self.records[j].key)
        &&& forall|i: int|
            0 <= i < self.records.len() ==> ((#[trigger] self.records[i]).owner.is_some()
                <==> self.records[i].response.is_none())
        &&& forall|i: int|
            0 <= i < self.records.len() && (#[trigger] self.records[i]).owner.is_some()
                ==> self.records[i].owner.unwrap() < self.next_scope
        &&& forall|i: int, j: int|
            0 <= i < j < self.records.len() && (#[trigger] self.records[i]).owner.is_some()
                ==> self.records[i].owner != (#[trigger] self.records[j]).owner
        &&& forall|i: int|
            0 <= i < self.queue.len() && (#[trigger] self.queue[i]).claimed_by.is_some()
                ==> self.queue[i].claimed_by.unwrap() < self.next_scope
        &&& forall|i: int, j: int|
            0 <= i < j < self.queue.len() && (#[trigger] self.queue[i]).claimed_by.is_some()
                ==> self.queue[i].claimed_by != (#[trigger] self.queue[j]).claimed_by
        &&& forall|i: int, j: int|
            0 <= i < j < self.issues.len() ==> (#[trigger] self.issues[i]).issue_id != (
            #[trigger] self.issues[j]).issue_id
        &&& forall|i: int|
            0 <= i < self.queue.len() ==> catalog_has(
                self.issues,
                (#[trigger] self.queue[i]).task.issue_id,
            )
    }
}

} // verus!
