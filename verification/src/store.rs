//! The backing store: idempotency records, the catalog of issues and the
//! queue of delivery tasks, with the scopes and claims that are open on it.
//!
//! A scope stages its writes and publishes them all at once when it is
//! committed. Where a real store would make a caller wait for another scope,
//! this one answers `StoreError::WouldBlock`, and the caller asks again once
//! that scope is finalized.

use vstd::prelude::*;
use crate::idempotency::{valid_key, IdempotencyKey};
use crate::model::{
    catalog_has, catalog_index, fan_out, record_holds, record_owned, response_view, row_claimed,
    texts, unclaimed_rows, DeliveryTask, IdempotencyRecord, Issue, IssueView, QueueRow,
    RecordView, RowView, StoreView, TaskView,
};
use crate::response::{CapturedResponse, ResponseView};

verus! {

/// Why the store did not carry out an operation.
#[derive(Clone, Copy, Debug, PartialEq, Eq, Structural)]
pub enum StoreError {
    /// Another scope holds the key and is not finalized yet.
    WouldBlock,
    /// No scope id is left to give out.
    ScopesExhausted,
    /// The scope or claim is not open on this store.
    UnknownScope,
    /// The scope has staged an issue already.
    IssueAlreadyStaged,
    /// The catalog holds an issue with the staged issue's id.
    DuplicateIssue,
    /// A staged task names an issue that is neither staged with it nor in
    /// the catalog.
    MissingIssue,
    /// The store could not be reached or failed for a reason of its own.
    /// The store of this crate, which lives in memory, never answers so.
    Unavailable,
}

/// What a scope holds.
pub struct ScopeView {
    pub id: u64,
    pub issue: Option<IssueView>,
    pub tasks: Seq<TaskView>,
}

/// An open unit of writes: the hold on one idempotency record, and what has
/// been staged to be written with it.
#[derive(Debug)]
pub struct Scope {
    id: u64,
    issue: Option<Issue>,
    tasks: Vec<DeliveryTask>,
}

/// The staged issue as a mathematical value, if there is one.
pub open spec fn issue_view(issue: Option<Issue>) -> Option<IssueView> {
    match issue {
        Some(i) => Some(i@),
        None => None,
    }
}

/// The tasks as mathematical values.
pub open spec fn tasks_view(tasks: Seq<DeliveryTask>) -> Seq<TaskView> {
    Seq::new(tasks.len(), |i: int| tasks[i]@)
}

impl View for Scope {
    type V = ScopeView;

    closed spec fn view(&self) -> ScopeView {
        ScopeView { id: self.id, issue: issue_view(self.issue), tasks: tasks_view(self.tasks@) }
    }
}

/// What a claim holds.
pub struct ClaimView {
    pub scope: u64,
    pub task: TaskView,
}

/// One task of the queue, held for its claimant alone until it is completed
/// or released.
#[derive(Debug)]
pub struct ClaimedTask {
    scope: u64,
    task: DeliveryTask,
}

impl View for ClaimedTask {
    type V = ClaimView;

    closed spec fn view(&self) -> ClaimView {
        ClaimView { scope: self.scope, task: self.task@ }
    }
}

impl ClaimedTask {
    /// The issue to deliver.
    pub fn issue_id(&self) -> (id: u128)
        ensures
            id == self@.task.issue_id,
    {
        self.task.issue_id
    }

    /// The address to deliver to.
    pub fn recipient(&self) -> (address: &String)
        ensures
            address@ == self@.task.recipient,
    {
        &self.task.recipient
    }
}

/// What the guard tells a submission to do.
#[derive(Debug)]
pub enum NextAction {
    /// First submission under this key: do the work in the scope, then
    /// commit it.
    StartProcessing(Scope),
    /// The key was used before: answer with the response saved then.
    ReturnSavedResponse(CapturedResponse),
}

/// The store.
#[derive(Debug)]
pub struct Store {
    records: Vec<IdempotencyRecord>,
    issues: Vec<Issue>,
    queue: Vec<QueueRow>,
    next_scope: u64,
}

impl View for Store {
    type V = StoreView;

    closed spec fn view(&self) -> StoreView {
        StoreView {
            records: Seq::new(self.records@.len(), |i: int| self.records@[i]@),
            issues: Seq::new(self.issues@.len(), |i: int| self.issues@[i]@),
            queue: Seq::new(self.queue@.len(), |i: int| self.queue@[i]@),
            next_scope: self.next_scope,
        }
    }
}

impl StoreView {
    /// The store after a scope began on a fresh key.
    pub open spec fn with_record(self, actor_id: u128, key: Seq<char>, now: u64) -> StoreView {
        StoreView {
            records: self.records.push(
                RecordView {
                    actor_id,
                    key,
                    response: None,
                    created_at: now,
                    owner: Some(self.next_scope),
                },
            ),
            next_scope: (self.next_scope + 1) as u64,
            ..self
        }
    }

    /// The store after the scope `scope` was rolled back: its record is
    /// gone, and nothing else has changed.
    pub open spec fn without_scope(self, scope: u64) -> StoreView {
        StoreView { records: self.records.remove(self.owner_index(scope)), ..self }
    }

    /// The store after `scope` was committed with `response`: its record
    /// holds the response, and its issue and tasks are published.
    pub open spec fn committed(self, scope: ScopeView, response: ResponseView) -> StoreView {
        let i = self.owner_index(scope.id);
        StoreView {
            records: self.records.update(
                i,
                RecordView { response: Some(response), owner: None, ..self.records[i] },
            ),
            issues: match scope.issue {
                Some(issue) => self.issues.push(issue),
                None => self.issues,
            },
            queue: self.queue + unclaimed_rows(scope.tasks),
            next_scope: self.next_scope,
        }
    }

    /// The store after the first free row was claimed.
    pub open spec fn with_claim(self) -> StoreView {
        let i = self.free_index();
        StoreView {
            queue: self.queue.update(
                i,
                RowView { claimed_by: Some(self.next_scope), ..self.queue[i] },
            ),
            next_scope: (self.next_scope + 1) as u64,
            ..self
        }
    }

    /// The store after the row held by the claim `scope` was deleted.
    pub open spec fn without_claim(self, scope: u64) -> StoreView {
        StoreView { queue: self.queue.remove(self.claim_index(scope)), ..self }
    }

    /// The store after the claim `scope` let go of its row: the row is
    /// free again, and still in its place.
    pub open spec fn with_release(self, scope: u64) -> StoreView {
        let i = self.claim_index(scope);
        StoreView {
            queue: self.queue.update(i, RowView { claimed_by: None, ..self.queue[i] }),
            ..self
        }
    }

    /// The store after the holder of the id `scope` was lost: what it held
    /// is let go, and nothing else has changed.
    pub open spec fn abandoned(self, scope: u64) -> StoreView {
        let kept = if self.is_open(scope) {
            self.without_scope(scope)
        } else {
            self
        };
        if kept.is_claimed(scope) {
            kept.with_release(scope)
        } else {
            kept
        }
    }

    /// The staged issue of `scope` cannot be written: its id is taken.
    pub open spec fn collides(self, scope: ScopeView) -> bool {
        scope.issue.is_some() && self.has_issue(scope.issue.unwrap().issue_id)
    }

    /// The issue of the staged task `k` of `scope` is staged with it or in
    /// the catalog.
    pub open spec fn resolves(self, scope: ScopeView, k: int) -> bool {
        (scope.issue.is_some() && scope.issue.unwrap().issue_id == scope.tasks[k].issue_id)
            || self.has_issue(scope.tasks[k].issue_id)
    }

    /// Some staged task of `scope` names an issue that would not exist.
    pub open spec fn dangles(self, scope: ScopeView) -> bool {
        exists|k: int| 0 <= k < scope.tasks.len() && !self.resolves(scope, k)
    }
}

impl Scope {
    /// Stages `issue` to be written when the scope is committed. A scope
    /// writes one issue at most.
    pub fn insert_issue(&mut self, issue: Issue) -> (r: Result<(), StoreError>)
        ensures
            match r {
                Ok(()) => old(self)@.issue.is_none() && final(self)@ == (ScopeView {
                    issue: Some(issue@),
                    ..old(self)@
                }),
                Err(StoreError::IssueAlreadyStaged) => old(self)@.issue.is_some() && final(self)@
                    == old(self)@,
                Err(_) => false,
            },
    {
        if self.issue.is_some() {
            Err(StoreError::IssueAlreadyStaged)
        } else {
            self.issue = Some(issue);
            Ok(())
        }
    }

    /// Stages one delivery task of the issue `issue_id` for each of
    /// `recipients`, in their order, behind what is staged already.
    pub fn enqueue_all(&mut self, issue_id: u128, recipients: &Vec<String>)
        ensures
            final(self)@ == (ScopeView {
                tasks: old(self)@.tasks + fan_out(issue_id, texts(recipients@)),
                ..old(self)@
            }),
    {
        let ghost before = self@;
        let mut i: usize = 0;
        while i < recipients.len()
            invariant
                i <= recipients.len(),
                self@.id == before.id,
                self@.issue == before.issue,
                self@.tasks == before.tasks + fan_out(issue_id, texts(recipients@)).subrange(
                    0,
                    i as int,
                ),
            decreases recipients.len() - i,
        {
            let ghost staged = self@.tasks;
            self.tasks.push(DeliveryTask { issue_id, recipient: recipients[i].clone() });
            proof {
                let added = TaskView { issue_id, recipient: recipients@[i as int]@ };
                assert(self@.tasks =~= staged.push(added));
                assert(fan_out(issue_id, texts(recipients@))[i as int] == added);
                assert(self@.tasks =~= before.tasks + fan_out(
                    issue_id,
                    texts(recipients@),
                ).subrange(0, i + 1));
            }
            i += 1;
        }
        assert(self@.tasks =~= before.tasks + fan_out(issue_id, texts(recipients@)));
    }
}

impl Store {
    /// An empty store.
    pub fn new() -> (store: Store)
        ensures
            store@.wf(),
            store@.records.len() == 0,
            store@.issues.len() == 0,
            store@.queue.len() == 0,
            store@.next_scope == 0,
    {
        Store { records: Vec::new(), issues: Vec::new(), queue: Vec::new(), next_scope: 0 }
    }

    fn find_key(&self, actor_id: u128, key: &String) -> (found: Option<usize>)
        ensures
            match found {
                Some(i) => self@.holds_key(i as int, actor_id, key@),
                None => !self@.knows(actor_id, key@),
            },
    {
        let mut i: usize = 0;
        while i < self.records.len()
            invariant
                i <= self.records.len(),
                forall|j: int| 0 <= j < i ==> !record_holds(self@.records, j, actor_id, key@),
            decreases self.records.len() - i,
        {
            if self.records[i].actor_id == actor_id && self.records[i].key == *key {
                return Some(i);
            }
            i += 1;
        }
        None
    }

    fn find_owner(&self, scope: u64) -> (found: Option<usize>)
        ensures
            match found {
                Some(i) => self@.owned_by(i as int, scope),
                None => !self@.is_open(scope),
            },
    {
        let mut i: usize = 0;
        while i < self.records.len()
            invariant
                i <= self.records.len(),
                forall|j: int| 0 <= j < i ==> !record_owned(self@.records, j, scope),
            decreases self.records.len() - i,
        {
            let hit = match self.records[i].owner {
                Some(id) => id == scope,
                None => false,
            };
            if hit {
                return Some(i);
            }
            i += 1;
        }
        None
    }

    fn find_issue(&self, issue_id: u128) -> (found: Option<usize>)
        ensures
            match found {
                Some(i) => i < self@.issues.len() && self@.issues[i as int].issue_id == issue_id,
                None => !self@.has_issue(issue_id),
            },
    {
        let mut i: usize = 0;
        while i < self.issues.len()
            invariant
                i <= self.issues.len(),
                forall|j: int| 0 <= j < i ==> (#[trigger] self@.issues[j]).issue_id != issue_id,
            decreases self.issues.len() - i,
        {
            if self.issues[i].issue_id == issue_id {
                return Some(i);
            }
            i += 1;
        }
        None
    }

    /// Opens the guard for `actor_id` under `key`.
    ///
    /// On a key that no record holds, inserts an empty record held by a new
    /// scope and hands that scope out. On a key whose record holds a
    /// response, hands that response out. On a key held by a scope that is
    /// still open, answers `WouldBlock`. Only a new scope changes the store.
    pub fn begin(&mut self, actor_id: u128, key: &IdempotencyKey, now: u64) -> (r: Result<
        NextAction,
        StoreError,
    >)
        requires
            old(self)@.wf(),
        ensures
            final(self)@.wf(),
            valid_key(key@),
            match r {
                Ok(NextAction::StartProcessing(scope)) => {
                    &&& !old(self)@.knows(actor_id, key@)
                    &&& old(self)@.next_scope < u64::MAX
                    &&& final(self)@ == old(self)@.with_record(actor_id, key@, now)
                    &&& scope@ == (ScopeView {
                        id: old(self)@.next_scope,
                        issue: None,
                        tasks: Seq::empty(),
                    })
                },
                Ok(NextAction::ReturnSavedResponse(saved)) => {
                    &&& old(self)@.saved(actor_id, key@) == Some(saved@)
                    &&& final(self)@ == old(self)@
                },
                Err(StoreError::WouldBlock) => {
                    &&& old(self)@.knows(actor_id, key@)
                    &&& old(self)@.saved(actor_id, key@).is_none()
                    &&& final(self)@ == old(self)@
                },
                Err(StoreError::ScopesExhausted) => {
                    &&& !old(self)@.knows(actor_id, key@)
                    &&& old(self)@.next_scope == u64::MAX
                    &&& final(self)@ == old(self)@
                },
                Err(_) => false,
            },
    {
        let text = key.text();
        let found = self.find_key(actor_id, text);
        match found {
            Some(i) => {
                match &self.records[i].response {
                    Some(saved) => Ok(NextAction::ReturnSavedResponse(saved.duplicate())),
                    None => Err(StoreError::WouldBlock),
                }
            },
            None => {
                if self.next_scope == u64::MAX {
                    Err(StoreError::ScopesExhausted)
                } else {
                    let id: u64 = self.next_scope;
                    self.records.push(
                        IdempotencyRecord {
                            actor_id,
                            key: text.clone(),
                            response: None,
                            created_at: now,
                            owner: Some(id),
                        },
                    );
                    self.next_scope = id + 1;
                    let scope = Scope { id, issue: None, tasks: Vec::new() };
                    proof {
                        let pre = old(self)@;
                        let post = self@;
                        assert(post.records =~= pre.with_record(actor_id, key@, now).records);
                        assert(post.issues =~= pre.issues);
                        assert(post.queue =~= pre.queue);
                        assert(scope@.tasks =~= Seq::empty());
                        assert forall|j: int| 0 <= j < pre.records.len() implies !((
                        #[trigger] pre.records[j]).actor_id == actor_id && pre.records[j].key
                            == key@) by {
                            assert(!pre.holds_key(j, actor_id, key@));
                        }
                    }
                    Ok(NextAction::StartProcessing(scope))
                }
            },
        }
    }

    /// Gives up `scope`: the record that it holds is removed, and nothing
    /// that it staged is written. A scope that is not open here changes
    /// nothing.
    pub fn rollback(&mut self, scope: Scope)
        requires
            old(self)@.wf(),
        ensures
            final(self)@.wf(),
            old(self)@.is_open(scope@.id) ==> final(self)@ == old(self)@.without_scope(scope@.id),
            !old(self)@.is_open(scope@.id) ==> final(self)@ == old(self)@,
    {
        let found = self.find_owner(scope.id);
        match found {
            Some(i) => {
                self.records.remove(i);
                proof {
                    let pre = old(self)@;
                    assert(pre.owned_by(pre.owner_index(scope@.id), scope@.id));
                    assert(pre.owner_index(scope@.id) == i);
                    assert(self@.records =~= pre.records.remove(i as int));
                    assert(self@.issues =~= pre.issues);
                    assert(self@.queue =~= pre.queue);
                    lemma_remove_record_keeps_wf(pre, i as int);
                }
            },
            None => {},
        }
    }

    /// Finalizes `scope`: saves `response` in the record that the scope
    /// holds, publishes the staged issue and tasks, and hands the response
    /// back. Where the staged issue's id is taken, or a staged task names
    /// an issue that would not exist, the scope is rolled back instead.
    pub fn commit_with_response(&mut self, scope: Scope, response: CapturedResponse) -> (r: Result<
        CapturedResponse,
        StoreError,
    >)
        requires
            old(self)@.wf(),
        ensures
            final(self)@.wf(),
            match r {
                Ok(saved) => {
                    &&& old(self)@.is_open(scope@.id)
                    &&& !old(self)@.collides(scope@)
                    &&& !old(self)@.dangles(scope@)
                    &&& final(self)@ == old(self)@.committed(scope@, response@)
                    &&& saved@ == response@
                },
                Err(StoreError::UnknownScope) => {
                    &&& !old(self)@.is_open(scope@.id)
                    &&& final(self)@ == old(self)@
                },
                Err(StoreError::DuplicateIssue) => {
                    &&& old(self)@.is_open(scope@.id)
                    &&& old(self)@.collides(scope@)
                    &&& final(self)@ == old(self)@.without_scope(scope@.id)
                },
                Err(StoreError::MissingIssue) => {
                    &&& old(self)@.is_open(scope@.id)
                    &&& !old(self)@.collides(scope@)
                    &&& old(self)@.dangles(scope@)
                    &&& final(self)@ == old(self)@.without_scope(scope@.id)
                },
                Err(_) => false,
            },
    {
        let ghost pre = self@;
        let found = self.find_owner(scope.id);
        match found {
            None => Err(StoreError::UnknownScope),
            Some(i) => {
                proof {
                    assert(pre.owned_by(pre.owner_index(scope@.id), scope@.id));
                    assert(pre.owner_index(scope@.id) == i);
                }
                let taken = match &scope.issue {
                    Some(issue) => self.find_issue(issue.issue_id).is_some(),
                    None => false,
                };
                if taken {
                    self.records.remove(i);
                    proof {
                        assert(self@.records =~= pre.records.remove(i as int));
                        assert(self@.issues =~= pre.issues);
                        assert(self@.queue =~= pre.queue);
                        lemma_remove_record_keeps_wf(pre, i as int);
                    }
                    Err(StoreError::DuplicateIssue)
                } else {
                    let staged_id: Option<u128> = match &scope.issue {
                        Some(issue) => Some(issue.issue_id),
                        None => None,
                    };
                    let mut rows: Vec<QueueRow> = Vec::new();
                    let mut k: usize = 0;
                    while k < scope.tasks.len()
                        invariant
                            k <= scope.tasks.len(),
                            rows@.len() == k,
                            self@ == pre,
                            old(self)@ == pre,
                            pre.wf(),
                            i < self.records.len(),
                            pre.is_open(scope@.id),
                            pre.owner_index(scope@.id) == i,
                            !pre.collides(scope@),
                            staged_id == match scope@.issue {
                                Some(issue) => Some(issue.issue_id),
                                None => None,
                            },
                            forall|j: int| 0 <= j < k ==> pre.resolves(scope@, j),
                            forall|j: int|
                                0 <= j < k ==> (#[trigger] rows@[j])@ == (RowView {
                                    task: scope.tasks@[j]@,
                                    claimed_by: None,
                                }),
                        decreases scope.tasks.len() - k,
                    {
                        let staged = match staged_id {
                            Some(id) => id == scope.tasks[k].issue_id,
                            None => false,
                        };
                        if !staged && self.find_issue(scope.tasks[k].issue_id).is_none() {
                            self.records.remove(i);
                            proof {
                                assert(!pre.resolves(scope@, k as int));
                                assert(self@.records =~= pre.records.remove(i as int));
                                assert(self@.issues =~= pre.issues);
                                assert(self@.queue =~= pre.queue);
                                lemma_remove_record_keeps_wf(pre, i as int);
                            }
                            return Err(StoreError::MissingIssue);
                        }
                        rows.push(
                            QueueRow {
                                task: DeliveryTask {
                                    issue_id: scope.tasks[k].issue_id,
                                    recipient: scope.tasks[k].recipient.clone(),
                                },
                                claimed_by: None,
                            },
                        );
                        k += 1;
                    }
                    let mut record = self.records.remove(i);
                    record.response = Some(response.duplicate());
                    record.owner = None;
                    self.records.insert(i, record);
                    let ghost staged = scope@;
                    match scope.issue {
                        Some(issue) => {
                            self.issues.push(issue);
                        },
                        None => {},
                    }
                    self.queue.append(&mut rows);
                    proof {
                        let post = pre.committed(staged, response@);
                        assert(self@.records =~= post.records);
                        assert(self@.issues =~= post.issues);
                        assert(self@.queue =~= post.queue);
                        lemma_commit_keeps_wf(pre, staged, response@);
                    }
                    Ok(response)
                }
            },
        }
    }

    fn find_free(&self) -> (found: Option<usize>)
        ensures
            match found {
                Some(i) => self@.first_free(i as int),
                None => !self@.has_free(),
            },
    {
        let mut i: usize = 0;
        while i < self.queue.len()
            invariant
                i <= self.queue.len(),
                forall|j: int| 0 <= j < i ==> (#[trigger] self@.queue[j]).claimed_by.is_some(),
            decreases self.queue.len() - i,
        {
            if self.queue[i].claimed_by.is_none() {
                return Some(i);
            }
            i += 1;
        }
        None
    }

    fn find_claim(&self, scope: u64) -> (found: Option<usize>)
        ensures
            match found {
                Some(i) => self@.claimed_at(i as int, scope),
                None => !self@.is_claimed(scope),
            },
    {
        let mut i: usize = 0;
        while i < self.queue.len()
            invariant
                i <= self.queue.len(),
                forall|j: int| 0 <= j < i ==> !row_claimed(self@.queue, j, scope),
            decreases self.queue.len() - i,
        {
            let hit = match self.queue[i].claimed_by {
                Some(id) => id == scope,
                None => false,
            };
            if hit {
                return Some(i);
            }
            i += 1;
        }
        None
    }

    /// Claims the first free row of the queue for the caller alone, and
    /// hands out its task. Answers `None`, and changes nothing, where the
    /// queue is empty or every row is claimed.
    pub fn try_claim_one(&mut self) -> (r: Result<Option<ClaimedTask>, StoreError>)
        requires
            old(self)@.wf(),
        ensures
            final(self)@.wf(),
            match r {
                Ok(Some(claimed)) => {
                    &&& old(self)@.has_free()
                    &&& old(self)@.next_scope < u64::MAX
                    &&& final(self)@ == old(self)@.with_claim()
                    &&& claimed@ == (ClaimView {
                        scope: old(self)@.next_scope,
                        task: old(self)@.queue[old(self)@.free_index()].task,
                    })
                },
                Ok(None) => !old(self)@.has_free() && final(self)@ == old(self)@,
                Err(StoreError::ScopesExhausted) => {
                    &&& old(self)@.has_free()
                    &&& old(self)@.next_scope == u64::MAX
                    &&& final(self)@ == old(self)@
                },
                Err(_) => false,
            },
    {
        let ghost pre = self@;
        match self.find_free() {
            None => Ok(None),
            Some(i) => {
                proof {
                    lemma_first_free_is_one(pre, i as int);
                }
                if self.next_scope == u64::MAX {
                    Err(StoreError::ScopesExhausted)
                } else {
                    let id: u64 = self.next_scope;
                    let mut row = self.queue.remove(i);
                    row.claimed_by = Some(id);
                    let task = DeliveryTask {
                        issue_id: row.task.issue_id,
                        recipient: row.task.recipient.clone(),
                    };
                    self.queue.insert(i, row);
                    self.next_scope = id + 1;
                    proof {
                        assert(self@.queue =~= pre.with_claim().queue);
                        assert(self@.records =~= pre.records);
                        assert(self@.issues =~= pre.issues);
                        lemma_claim_keeps_wf(pre);
                    }
                    Ok(Some(ClaimedTask { scope: id, task }))
                }
            },
        }
    }

    /// Deletes the row that `claimed` holds, and ends the claim. For use
    /// only once the delivery is known to have succeeded.
    pub fn complete(&mut self, claimed: ClaimedTask) -> (r: Result<(), StoreError>)
        requires
            old(self)@.wf(),
        ensures
            final(self)@.wf(),
            match r {
                Ok(()) => {
                    &&& old(self)@.is_claimed(claimed@.scope)
                    &&& final(self)@ == old(self)@.without_claim(claimed@.scope)
                },
                Err(StoreError::UnknownScope) => {
                    &&& !old(self)@.is_claimed(claimed@.scope)
                    &&& final(self)@ == old(self)@
                },
                Err(_) => false,
            },
    {
        let ghost pre = self@;
        match self.find_claim(claimed.scope) {
            None => Err(StoreError::UnknownScope),
            Some(i) => {
                self.queue.remove(i);
                proof {
                    assert(pre.claimed_at(pre.claim_index(claimed@.scope), claimed@.scope));
                    assert(pre.claim_index(claimed@.scope) == i);
                    assert(self@.queue =~= pre.queue.remove(i as int));
                    assert(self@.records =~= pre.records);
                    assert(self@.issues =~= pre.issues);
                    lemma_remove_row_keeps_wf(pre, i as int);
                }
                Ok(())
            },
        }
    }

    /// Ends the claim without deleting: the row that `claimed` holds is
    /// free again for a later claim. A claim that holds no row here changes
    /// nothing.
    pub fn release(&mut self, claimed: ClaimedTask)
        requires
            old(self)@.wf(),
        ensures
            final(self)@.wf(),
            old(self)@.is_claimed(claimed@.scope) ==> final(self)@ == old(self)@.with_release(
                claimed@.scope,
            ),
            !old(self)@.is_claimed(claimed@.scope) ==> final(self)@ == old(self)@,
    {
        let ghost pre = self@;
        match self.find_claim(claimed.scope) {
            None => {},
            Some(i) => {
                let mut row = self.queue.remove(i);
                row.claimed_by = None;
                self.queue.insert(i, row);
                proof {
                    assert(pre.claimed_at(pre.claim_index(claimed@.scope), claimed@.scope));
                    assert(pre.claim_index(claimed@.scope) == i);
                    assert(self@.queue =~= pre.with_release(claimed@.scope).queue);
                    assert(self@.records =~= pre.records);
                    assert(self@.issues =~= pre.issues);
                    lemma_release_keeps_wf(pre, claimed@.scope);
                }
            },
        }
    }

    /// Ends whatever the scope or claim with the id `scope` holds, as the
    /// store does when it loses the connection of its holder: a record that
    /// is held is removed, a row that is held is free again. This is how a
    /// key or a task comes back after its holder is gone without having
    /// finalized.
    pub fn abandon(&mut self, scope: u64)
        requires
            old(self)@.wf(),
        ensures
            final(self)@.wf(),
            final(self)@ == old(self)@.abandoned(scope),
    {
        let ghost pre = self@;
        match self.find_owner(scope) {
            Some(i) => {
                self.records.remove(i);
                proof {
                    assert(pre.owned_by(pre.owner_index(scope), scope));
                    assert(pre.owner_index(scope) == i);
                    assert(self@.records =~= pre.records.remove(i as int));
                    assert(self@.issues =~= pre.issues);
                    assert(self@.queue =~= pre.queue);
                    lemma_remove_record_keeps_wf(pre, i as int);
                }
            },
            None => {},
        }
        let ghost mid = self@;
        match self.find_claim(scope) {
            Some(i) => {
                let mut row = self.queue.remove(i);
                row.claimed_by = None;
                self.queue.insert(i, row);
                proof {
                    assert(mid.claimed_at(mid.claim_index(scope), scope));
                    assert(mid.claim_index(scope) == i);
                    assert(self@.queue =~= mid.with_release(scope).queue);
                    assert(self@.records =~= mid.records);
                    assert(self@.issues =~= mid.issues);
                    lemma_release_keeps_wf(mid, scope);
                }
            },
            None => {},
        }
    }

    /// The response saved for `actor_id` under `key`, if a finished
    /// submission left one.
    pub fn get_saved_response(&self, actor_id: u128, key: &IdempotencyKey) -> (r: Option<
        CapturedResponse,
    >)
        requires
            self@.wf(),
        ensures
            response_view(r) == self@.saved(actor_id, key@),
    {
        match self.find_key(actor_id, key.text()) {
            Some(i) => {
                proof {
                    let at = self@.key_index(actor_id, key@);
                    assert(self@.holds_key(at, actor_id, key@));
                    assert(at == i);
                }
                match &self.records[i].response {
                    Some(saved) => Some(saved.duplicate()),
                    None => None,
                }
            },
            None => None,
        }
    }

    /// How many idempotency records there are.
    pub fn record_count(&self) -> (n: usize)
        ensures
            n == self@.records.len(),
    {
        self.records.len()
    }

    /// How many issues the catalog holds.
    pub fn issue_count(&self) -> (n: usize)
        ensures
            n == self@.issues.len(),
    {
        self.issues.len()
    }

    /// How many rows the queue holds, claimed or not.
    pub fn queue_len(&self) -> (n: usize)
        ensures
            n == self@.queue.len(),
    {
        self.queue.len()
    }

    /// The row of the queue at `index`.
    pub fn row(&self, index: usize) -> (row: &QueueRow)
        requires
            index < self@.queue.len(),
        ensures
            row@ == self@.queue[index as int],
    {
        &self.queue[index]
    }

    /// The issue with the id `issue_id`, if the catalog holds it.
    pub fn get_issue(&self, issue_id: u128) -> (r: Option<Issue>)
        requires
            self@.wf(),
        ensures
            match r {
                Some(issue) => self@.has_issue(issue_id) && issue@
                    == self@.issues[self@.issue_index(issue_id)],
                None => !self@.has_issue(issue_id),
            },
    {
        match self.find_issue(issue_id) {
            Some(i) => {
                proof {
                    let at = self@.issue_index(issue_id);
                    assert(self@.issues[at].issue_id == issue_id);
                    assert(at == i);
                }
                Some(self.issues[i].duplicate())
            },
            None => None,
        }
    }
}

/// A row that is free, with every row before it claimed, is the first free
/// row.
proof fn lemma_first_free_is_one(pre: StoreView, i: int)
    requires
        pre.first_free(i),
    ensures
        pre.has_free(),
        pre.free_index() == i,
{
    let at = pre.free_index();
    assert(pre.first_free(at));
    if at < i {
        assert(pre.queue[at].claimed_by.is_some());
    }
    if i < at {
        assert(pre.queue[i].claimed_by.is_some());
    }
}

/// Claiming the first free row keeps the store well-formed.
proof fn lemma_claim_keeps_wf(pre: StoreView)
    requires
        pre.wf(),
        pre.has_free(),
        pre.next_scope < u64::MAX,
        pre.first_free(pre.free_index()),
    ensures
        pre.with_claim().wf(),
{
    let post = pre.with_claim();
    let i = pre.free_index();
    assert forall|a: int| 0 <= a < post.queue.len() && a != i implies #[trigger] post.queue[a]
        == pre.queue[a] by {}
}

/// Deleting a row keeps the store well-formed.
proof fn lemma_remove_row_keeps_wf(pre: StoreView, i: int)
    requires
        pre.wf(),
        0 <= i < pre.queue.len(),
    ensures
        (StoreView { queue: pre.queue.remove(i), ..pre }).wf(),
{
    let post = StoreView { queue: pre.queue.remove(i), ..pre };
    assert forall|a: int| 0 <= a < post.queue.len() implies #[trigger] post.queue[a]
        == pre.queue[if a < i {
        a
    } else {
        a + 1
    }] by {}
}

/// Releasing a claim keeps the store well-formed.
proof fn lemma_release_keeps_wf(pre: StoreView, scope: u64)
    requires
        pre.wf(),
        pre.is_claimed(scope),
    ensures
        pre.with_release(scope).wf(),
{
    let post = pre.with_release(scope);
    let i = pre.claim_index(scope);
    assert(pre.claimed_at(i, scope));
    assert forall|a: int| 0 <= a < post.queue.len() && a != i implies #[trigger] post.queue[a]
        == pre.queue[a] by {}
}

/// Removing a record keeps the store well-formed.
proof fn lemma_remove_record_keeps_wf(pre: StoreView, i: int)
    requires
        pre.wf(),
        0 <= i < pre.records.len(),
    ensures
        (StoreView { records: pre.records.remove(i), ..pre }).wf(),
{
    let post = StoreView { records: pre.records.remove(i), ..pre };
    assert forall|a: int| 0 <= a < post.records.len() implies #[trigger] post.records[a]
        == pre.records[if a < i {
        a
    } else {
        a + 1
    }] by {}
}

/// Committing an open scope whose issue does not collide keeps the store
/// well-formed.
proof fn lemma_commit_keeps_wf(pre: StoreView, scope: ScopeView, response: ResponseView)
    requires
        pre.wf(),
        pre.is_open(scope.id),
        !pre.collides(scope),
        !pre.dangles(scope),
    ensures
        pre.committed(scope, response).wf(),
{
    let post = pre.committed(scope, response);
    let i = pre.owner_index(scope.id);
    assert(pre.owned_by(i, scope.id));
    assert forall|a: int| 0 <= a < post.records.len() implies (#[trigger] post.records[a]).actor_id
        == pre.records[a].actor_id && post.records[a].key == pre.records[a].key && (a != i
        ==> post.records[a] == pre.records[a]) by {}
    assert forall|a: int| 0 <= a < pre.queue.len() implies #[trigger] post.queue[a]
        == pre.queue[a] by {}
    assert forall|a: int| pre.queue.len() <= a < post.queue.len() implies (
    #[trigger] post.queue[a]).claimed_by.is_none() by {}
    assert forall|id: u128| catalog_has(pre.issues, id) implies #[trigger] catalog_has(
        post.issues,
        id,
    ) by {
        let at = catalog_index(pre.issues, id);
        assert(post.issues[at].issue_id == id);
    }
    assert forall|a: int| 0 <= a < post.queue.len() implies catalog_has(
        post.issues,
        (#[trigger] post.queue[a]).task.issue_id,
    ) by {
        if a >= pre.queue.len() {
            let k = a - pre.queue.len();
            assert(pre.resolves(scope, k));
            assert(post.queue[a].task == scope.tasks[k]);
            if !pre.has_issue(scope.tasks[k].issue_id) {
                assert(post.issues[pre.issues.len() as int].issue_id == scope.tasks[k].issue_id);
            }
        } else {
            assert(catalog_has(pre.issues, pre.queue[a].task.issue_id));
        }
    }
}

} // verus!
