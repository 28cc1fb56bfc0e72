//! The delivery worker: it claims one task at a time, hands it to the mail
//! transport, deletes it once the delivery is confirmed, and lets it go
//! for a later attempt otherwise.

use vstd::prelude::*;
use vstd::utf8::encode_utf8;
use crate::model::{Issue, IssueView, StoreView};
use crate::store::{ClaimView, ClaimedTask, Store, StoreError};

verus! {

/// Seconds to wait after finding nothing to claim.
pub const EMPTY_QUEUE_BACKOFF_SECS: u64 = 10;

/// Seconds to wait after an attempt that failed.
pub const ERROR_BACKOFF_SECS: u64 = 1;

/// The byte `@`.
pub const AT_SIGN: u8 = 0x40;

/// How one round of the worker ended well.
#[derive(Clone, Copy, Debug, PartialEq, Eq, Structural)]
pub enum ExecutionOutcome {
    /// A task was delivered and deleted.
    TaskCompleted,
    /// There was nothing to claim.
    EmptyQueue,
}

/// Why a round of the worker did not deliver. Whatever the reason, a task
/// that was claimed is free again.
#[derive(Clone, Copy, Debug, PartialEq, Eq, Structural)]
pub enum TaskError {
    /// The store failed.
    Store(StoreError),
    /// The stored address of the recipient is not an address.
    MalformedRecipient,
    /// The mail transport refused or failed.
    Delivery,
}

/// The byte at `i` is an `@`.
pub open spec fn at_sign_at(bytes: Seq<u8>, i: int) -> bool {
    0 <= i < bytes.len() && bytes[i] == AT_SIGN
}

/// An address has exactly one `@`, with something before it and something
/// after it.
pub open spec fn well_formed_address(bytes: Seq<u8>) -> bool {
    exists|i: int|
        {
            &&& #[trigger] at_sign_at(bytes, i)
            &&& 0 < i < bytes.len() - 1
            &&& forall|j: int| at_sign_at(bytes, j) ==> j == i
        }
}

/// Whether `address` can be delivered to.
pub fn valid_recipient(address: &String) -> (valid: bool)
    ensures
        valid == well_formed_address(encode_utf8(address@)),
{
    let bytes = address.as_str().as_bytes();
    let n = bytes.len();
    let mut first: usize = 0;
    while first < n && bytes[first] != AT_SIGN
        invariant
            first <= n,
            n == bytes@.len(),
            forall|j: int| 0 <= j < first ==> !at_sign_at(bytes@, j),
        decreases n - first,
    {
        first += 1;
    }
    if first == n {
        assert(forall|i: int| !at_sign_at(bytes@, i));
        return false;
    }
    assert(at_sign_at(bytes@, first as int));
    let mut k: usize = first + 1;
    while k < n && bytes[k] != AT_SIGN
        invariant
            first < k <= n,
            n == bytes@.len(),
            forall|j: int| first < j < k ==> !at_sign_at(bytes@, j),
        decreases n - k,
    {
        k += 1;
    }
    if k < n {
        assert(at_sign_at(bytes@, k as int));
        return false;
    }
    0 < first && first < n - 1
}

/// What a delivery holds.
pub struct DeliveryView {
    pub claimed: ClaimView,
    pub issue: IssueView,
}

/// A claimed task together with the issue to send.
#[derive(Debug)]
pub struct Delivery {
    claimed: ClaimedTask,
    issue: Issue,
}

impl View for Delivery {
    type V = DeliveryView;

    closed spec fn view(&self) -> DeliveryView {
        DeliveryView { claimed: self.claimed@, issue: self.issue@ }
    }
}

impl Delivery {
    /// The address to send to.
    pub fn recipient(&self) -> (address: &String)
        ensures
            address@ == self@.claimed.task.recipient,
    {
        self.claimed.recipient()
    }

    /// The issue to send.
    pub fn issue(&self) -> (issue: &Issue)
        ensures
            issue@ == self@.issue,
    {
        &self.issue
    }
}

impl StoreView {
    /// The store after a claim that was taken and let go again: it has used
    /// up a scope id and changed nothing else.
    pub open spec fn after_attempt(self) -> StoreView {
        StoreView { next_scope: (self.next_scope + 1) as u64, ..self }
    }

    /// The store after the first free row was claimed, delivered and
    /// deleted.
    pub open spec fn after_delivery(self) -> StoreView {
        StoreView {
            queue: self.queue.remove(self.free_index()),
            next_scope: (self.next_scope + 1) as u64,
            ..self
        }
    }

    /// The address of the first free row is one that can be delivered to.
    pub open spec fn next_is_deliverable(self) -> bool {
        well_formed_address(encode_utf8(self.queue[self.free_index()].task.recipient))
    }
}

/// How one round of the worker ends, where `sent` is the answer of the mail
/// transport, should it be asked.
pub open spec fn executed_result(pre: StoreView, sent: bool) -> Result<
    ExecutionOutcome,
    TaskError,
> {
    if !pre.has_free() {
        Ok(ExecutionOutcome::EmptyQueue)
    } else if pre.next_scope == u64::MAX {
        Err(TaskError::Store(StoreError::ScopesExhausted))
    } else if !pre.next_is_deliverable() {
        Err(TaskError::MalformedRecipient)
    } else if !sent {
        Err(TaskError::Delivery)
    } else {
        Ok(ExecutionOutcome::TaskCompleted)
    }
}

/// The store after one round of the worker, where `sent` is the answer of
/// the mail transport, should it be asked. A row is deleted only in a round
/// that ends with `TaskCompleted`.
pub open spec fn executed_store(pre: StoreView, sent: bool) -> StoreView {
    if !pre.has_free() || pre.next_scope == u64::MAX {
        pre
    } else if pre.next_is_deliverable() && sent {
        pre.after_delivery()
    } else {
        pre.after_attempt()
    }
}

/// Claims the next task and prepares its delivery: checks the address and
/// looks the issue up. A task whose address is malformed is let go at once,
/// and stays in the queue.
pub fn start_task(store: &mut Store) -> (r: Result<Option<Delivery>, TaskError>)
    requires
        old(store)@.wf(),
    ensures
        final(store)@.wf(),
        match r {
            Ok(None) => !old(store)@.has_free() && final(store)@ == old(store)@,
            Ok(Some(delivery)) => {
                let pre = old(store)@;
                let task = pre.queue[pre.free_index()].task;
                &&& pre.has_free()
                &&& pre.next_scope < u64::MAX
                &&& pre.next_is_deliverable()
                &&& final(store)@ == pre.with_claim()
                &&& delivery@.claimed == (ClaimView { scope: pre.next_scope, task })
                &&& pre.has_issue(task.issue_id)
                &&& delivery@.issue == pre.issues[pre.issue_index(task.issue_id)]
            },
            Err(TaskError::Store(StoreError::ScopesExhausted)) => {
                &&& old(store)@.has_free()
                &&& old(store)@.next_scope == u64::MAX
                &&& final(store)@ == old(store)@
            },
            Err(TaskError::MalformedRecipient) => {
                &&& old(store)@.has_free()
                &&& old(store)@.next_scope < u64::MAX
                &&& !old(store)@.next_is_deliverable()
                &&& final(store)@ == old(store)@.after_attempt()
            },
            Err(_) => false,
        },
{
    let ghost pre = store@;
    let claimed = match store.try_claim_one() {
        Err(e) => {
            return Err(TaskError::Store(e));
        },
        Ok(None) => {
            return Ok(None);
        },
        Ok(Some(claimed)) => claimed,
    };
    proof {
        lemma_claim_then_release(pre);
    }
    if !valid_recipient(claimed.recipient()) {
        store.release(claimed);
        return Err(TaskError::MalformedRecipient);
    }
    match store.get_issue(claimed.issue_id()) {
        Some(issue) => Ok(Some(Delivery { claimed, issue })),
        None => {
            store.release(claimed);
            Err(TaskError::Store(StoreError::MissingIssue))
        },
    }
}

/// Ends a delivery with the answer of the mail transport: a task that was
/// sent is deleted, one that was not is let go and stays in the queue.
pub fn finish_task(store: &mut Store, delivery: Delivery, sent: bool) -> (r: Result<
    ExecutionOutcome,
    TaskError,
>)
    requires
        old(store)@.wf(),
    ensures
        final(store)@.wf(),
        match r {
            Ok(ExecutionOutcome::TaskCompleted) => {
                &&& sent
                &&& old(store)@.is_claimed(delivery@.claimed.scope)
                &&& final(store)@ == old(store)@.without_claim(delivery@.claimed.scope)
            },
            Err(TaskError::Store(StoreError::UnknownScope)) => {
                &&& sent
                &&& !old(store)@.is_claimed(delivery@.claimed.scope)
                &&& final(store)@ == old(store)@
            },
            Err(TaskError::Delivery) => {
                &&& !sent
                &&& final(store)@ == if old(store)@.is_claimed(delivery@.claimed.scope) {
                    old(store)@.with_release(delivery@.claimed.scope)
                } else {
                    old(store)@
                }
            },
            _ => false,
        },
{
    if sent {
        match store.complete(delivery.claimed) {
            Ok(()) => Ok(ExecutionOutcome::TaskCompleted),
            Err(e) => Err(TaskError::Store(e)),
        }
    } else {
        store.release(delivery.claimed);
        Err(TaskError::Delivery)
    }
}

/// A round on the store `pre` gets as far as asking the mail transport:
/// there is a free task, a scope id to claim it with, and its address is
/// sound.
pub open spec fn asks_transport(pre: StoreView) -> bool {
    pre.has_free() && pre.next_scope < u64::MAX && pre.next_is_deliverable()
}

/// One round of the worker: claims a task, asks `transport` to send it, and
/// ends the delivery with the answer.
///
/// The transport is asked once at most, and then with the address of the
/// claimed task and the issue that the task names. Whatever it answers, the
/// round ends as `executed_result` and leaves the store as `executed_store`
/// say for that answer.
pub fn try_execute_task<F: Fn(&String, &Issue) -> bool>(store: &mut Store, transport: F) -> (r:
    Result<ExecutionOutcome, TaskError>)
    requires
        old(store)@.wf(),
        forall|recipient: &String, issue: &Issue| call_requires(transport, (recipient, issue)),
    ensures
        final(store)@.wf(),
        exists|sent: bool|
            {
                &&& r == #[trigger] executed_result(old(store)@, sent)
                &&& final(store)@ == executed_store(old(store)@, sent)
                &&& asks_transport(old(store)@) ==> exists|recipient: &String, issue: &Issue|
                    {
                        let pre = old(store)@;
                        let task = pre.queue[pre.free_index()].task;
                        &&& recipient@ == task.recipient
                        &&& issue@ == pre.issues[pre.issue_index(task.issue_id)]
                        &&& #[trigger] call_ensures(transport, (recipient, issue), sent)
                    }
            },
{
    let ghost pre = store@;
    let delivery = match start_task(store) {
        Err(e) => {
            assert(Err::<ExecutionOutcome, TaskError>(e) == executed_result(pre, false));
            return Err(e);
        },
        Ok(None) => {
            assert(Ok::<ExecutionOutcome, TaskError>(ExecutionOutcome::EmptyQueue)
                == executed_result(pre, false));
            return Ok(ExecutionOutcome::EmptyQueue);
        },
        Ok(Some(delivery)) => delivery,
    };
    let recipient = delivery.recipient();
    let issue = delivery.issue();
    let sent = transport(recipient, issue);
    proof {
        lemma_claim_then_release(pre);
        assert(call_ensures(transport, (recipient, issue), sent));
    }
    let r = finish_task(store, delivery, sent);
    assert(r == executed_result(pre, sent));
    r
}

/// Seconds to wait after a round: none after a delivery, the long wait
/// after finding the queue empty, the short one after any failure.
pub open spec fn backoff_of(round: Result<ExecutionOutcome, TaskError>) -> u64 {
    match round {
        Ok(ExecutionOutcome::TaskCompleted) => 0,
        Ok(ExecutionOutcome::EmptyQueue) => EMPTY_QUEUE_BACKOFF_SECS,
        Err(_) => ERROR_BACKOFF_SECS,
    }
}

/// Seconds that the worker waits before its next round.
pub fn backoff_secs(round: &Result<ExecutionOutcome, TaskError>) -> (secs: u64)
    ensures
        secs == backoff_of(*round),
{
    match round {
        Ok(ExecutionOutcome::TaskCompleted) => 0,
        Ok(ExecutionOutcome::EmptyQueue) => EMPTY_QUEUE_BACKOFF_SECS,
        Err(_) => ERROR_BACKOFF_SECS,
    }
}

/// After a claim, the claim holds the row that was the first free one;
/// letting it go restores the queue, and deleting its row removes that row.
pub proof fn lemma_claim_then_release(pre: StoreView)
    requires
        pre.wf(),
        pre.has_free(),
        pre.next_scope < u64::MAX,
    ensures
        pre.first_free(pre.free_index()),
        pre.with_claim().is_claimed(pre.next_scope),
        pre.with_claim().claim_index(pre.next_scope) == pre.free_index(),
        pre.with_claim().with_release(pre.next_scope) == pre.after_attempt(),
        pre.with_claim().without_claim(pre.next_scope) == pre.after_delivery(),
{
    let i = choose|i: int| 0 <= i < pre.queue.len() && (#[trigger] pre.queue[i]).claimed_by.is_none();
    lemma_some_free_row_is_first(pre, i);
    let f = pre.free_index();
    let mid = pre.with_claim();
    let id = pre.next_scope;
    assert(mid.claimed_at(f, id));
    let at = mid.claim_index(id);
    assert(mid.claimed_at(at, id));
    if at != f {
        assert(mid.queue[at] == pre.queue[at]);
        assert(pre.queue[at].claimed_by.unwrap() < pre.next_scope);
    }
    assert(mid.with_release(id).queue =~= pre.queue);
    assert(mid.without_claim(id).queue =~= pre.queue.remove(f));
}

/// Where some row is free, there is a first free row.
pub proof fn lemma_some_free_row_is_first(pre: StoreView, i: int)
    requires
        0 <= i < pre.queue.len(),
        pre.queue[i].claimed_by.is_none(),
    ensures
        pre.first_free(pre.free_index()),
    decreases i,
{
    if exists|j: int| 0 <= j < i && (#[trigger] pre.queue[j]).claimed_by.is_none() {
        let j = choose|j: int| 0 <= j < i && (#[trigger] pre.queue[j]).claimed_by.is_none();
        lemma_some_free_row_is_first(pre, j);
    } else {
        assert(pre.first_free(i));
    }
}

} // verus!
