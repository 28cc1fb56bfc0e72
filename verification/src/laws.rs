//! What holds of the pipeline as a whole, proved from the contracts of its
//! operations.

use vstd::prelude::*;
use crate::idempotency::valid_key;
use crate::issue_delivery_worker::{
    backoff_of, executed_result, executed_store, lemma_claim_then_release, ExecutionOutcome,
    TaskError,
};
use crate::worker_state::{transition, Transition, WorkerAction, WorkerEvent, WorkerState};
use crate::model::{catalog_has, fan_out, unclaimed_rows, RowView, StoreView};
use crate::newsletters::{
    goes_through, issue_of, key_refusal, submitted_result, submitted_store, PublishError,
    Submission,
};
use crate::response::ResponseView;
use crate::store::ScopeView;

verus! {

/// A record that was appended under a key that was new is the one found
/// under that key.
proof fn lemma_appended_record_is_found(
    pre: StoreView,
    post: StoreView,
    actor_id: u128,
    key: Seq<char>,
)
    requires
        pre.wf(),
        !pre.knows(actor_id, key),
        post.records.len() == pre.records.len() + 1,
        forall|i: int| 0 <= i < pre.records.len() ==> post.records[i] == pre.records[i],
        post.records.last().actor_id == actor_id,
        post.records.last().key == key,
    ensures
        post.knows(actor_id, key),
        post.key_index(actor_id, key) == pre.records.len(),
        post.saved(actor_id, key) == post.records.last().response,
{
    let last = pre.records.len() as int;
    assert(post.holds_key(last, actor_id, key));
    let at = post.key_index(actor_id, key);
    assert(post.holds_key(at, actor_id, key));
    if at != last {
        assert(pre.holds_key(at, actor_id, key));
    }
}

/// Idempotence. Once a submission of an actor under a key has been
/// answered with a response, every later submission of that actor under
/// that key is answered with the same response, whatever it carries, and
/// changes nothing in the store: no second issue, no second set of tasks.
pub proof fn lemma_resubmission_is_answered_alike(
    pre: StoreView,
    first: Submission,
    first_id: u128,
    second: Submission,
    second_id: u128,
)
    requires
        pre.wf(),
        second.actor_id == first.actor_id,
        second.key == first.key,
        submitted_result(pre, first, first_id).is_ok(),
    ensures
        submitted_result(submitted_store(pre, first, first_id), second, second_id)
            == submitted_result(pre, first, first_id),
        submitted_store(submitted_store(pre, first, first_id), second, second_id)
            == submitted_store(pre, first, first_id),
{
    let mid = submitted_store(pre, first, first_id);
    if goes_through(pre, first, first_id) {
        lemma_appended_record_is_found(pre, mid, first.actor_id, first.key);
    }
}

/// While the scope of a first submission is open, its key is known and
/// holds no response, so that a second submission under it is made to
/// wait; once the scope is committed, the key holds the response that was
/// committed, which is what the second submission is then answered with.
pub proof fn lemma_open_scope_serializes(
    pre: StoreView,
    actor_id: u128,
    key: Seq<char>,
    now: u64,
    staged: ScopeView,
    response: ResponseView,
)
    requires
        pre.wf(),
        !pre.knows(actor_id, key),
        pre.next_scope < u64::MAX,
        staged.id == pre.next_scope,
    ensures
        pre.with_record(actor_id, key, now).knows(actor_id, key),
        pre.with_record(actor_id, key, now).saved(actor_id, key).is_none(),
        pre.with_record(actor_id, key, now).is_open(staged.id),
        pre.with_record(actor_id, key, now).committed(staged, response).saved(actor_id, key)
            == Some(response),
{
    let mid = pre.with_record(actor_id, key, now);
    lemma_appended_record_is_found(pre, mid, actor_id, key);
    let last = pre.records.len() as int;
    assert(mid.owned_by(last, staged.id));
    let at = mid.owner_index(staged.id);
    assert(mid.owned_by(at, staged.id));
    if at != last {
        assert(pre.records[at].owner.unwrap() < pre.next_scope);
    }
    let post = mid.committed(staged, response);
    lemma_appended_record_is_found(pre, post, actor_id, key);
}

/// No row of `rows` satisfies `pred`: none is left by the filter.
proof fn lemma_filter_none(rows: Seq<RowView>, pred: spec_fn(RowView) -> bool)
    requires
        forall|i: int| 0 <= i < rows.len() ==> !pred(#[trigger] rows[i]),
    ensures
        rows.filter(pred).len() == 0,
    decreases rows.len(),
{
    reveal(Seq::filter);
    if rows.len() > 0 {
        lemma_filter_none(rows.drop_last(), pred);
    }
}

/// Every row of `rows` satisfies `pred`: all are left by the filter.
proof fn lemma_filter_all(rows: Seq<RowView>, pred: spec_fn(RowView) -> bool)
    requires
        forall|i: int| 0 <= i < rows.len() ==> pred(#[trigger] rows[i]),
    ensures
        rows.filter(pred).len() == rows.len(),
    decreases rows.len(),
{
    reveal(Seq::filter);
    if rows.len() > 0 {
        lemma_filter_all(rows.drop_last(), pred);
    }
}

/// Fan-out, the whole of it. After a first submission that went through
/// with N recipients, the issue is in the catalog, and the queue holds
/// exactly N rows of it: the rows that were there before, none of which is
/// of the new issue, followed by one free row for each recipient, in order.
pub proof fn lemma_fan_out_is_whole(pre: StoreView, s: Submission, issue_id: u128)
    requires
        pre.wf(),
        goes_through(pre, s, issue_id),
    ensures
        submitted_result(pre, s, issue_id).is_ok(),
        submitted_store(pre, s, issue_id).has_issue(issue_id),
        submitted_store(pre, s, issue_id).issues.last() == issue_of(s, issue_id),
        pre.tasks_of(issue_id) == 0,
        submitted_store(pre, s, issue_id).tasks_of(issue_id) == s.recipients.len(),
        submitted_store(pre, s, issue_id).queue == pre.queue + unclaimed_rows(
            fan_out(issue_id, s.recipients),
        ),
        submitted_store(pre, s, issue_id).saved(s.actor_id, s.key) == submitted_result(
            pre,
            s,
            issue_id,
        ).ok(),
{
    let post = submitted_store(pre, s, issue_id);
    let added = unclaimed_rows(fan_out(issue_id, s.recipients));
    let pred = |row: RowView| row.task.issue_id == issue_id;
    assert(post.issues[pre.issues.len() as int].issue_id == issue_id);
    assert forall|i: int| 0 <= i < pre.queue.len() implies !pred(#[trigger] pre.queue[i]) by {
        assert(catalog_has(pre.issues, pre.queue[i].task.issue_id));
    }
    lemma_filter_none(pre.queue, pred);
    lemma_filter_all(added, pred);
    Seq::filter_distributes_over_add(pre.queue, added, pred);
    lemma_appended_record_is_found(pre, post, s.actor_id, s.key);
}

/// Fan-out, or nothing of it. A submission that is not a first one that
/// goes through leaves every record, issue and row as it was.
pub proof fn lemma_nothing_is_written_otherwise(pre: StoreView, s: Submission, issue_id: u128)
    requires
        pre.wf(),
        !goes_through(pre, s, issue_id),
    ensures
        submitted_store(pre, s, issue_id).records == pre.records,
        submitted_store(pre, s, issue_id).issues == pre.issues,
        submitted_store(pre, s, issue_id).queue == pre.queue,
        submitted_result(pre, s, issue_id).is_ok() ==> submitted_store(pre, s, issue_id) == pre,
{
}

/// A scope that is given up before it is committed leaves nothing: the
/// store is as if the submission had never begun, but for the scope id
/// that was used up, and the key is not known.
pub proof fn lemma_interrupted_submission_leaves_nothing(
    pre: StoreView,
    actor_id: u128,
    key: Seq<char>,
    now: u64,
)
    requires
        pre.wf(),
        !pre.knows(actor_id, key),
        pre.next_scope < u64::MAX,
    ensures
        pre.with_record(actor_id, key, now).is_open(pre.next_scope),
        pre.with_record(actor_id, key, now).without_scope(pre.next_scope)
            == pre.after_attempt(),
        !pre.after_attempt().knows(actor_id, key),
{
    let mid = pre.with_record(actor_id, key, now);
    let last = pre.records.len() as int;
    assert(mid.owned_by(last, pre.next_scope));
    let at = mid.owner_index(pre.next_scope);
    assert(mid.owned_by(at, pre.next_scope));
    if at != last {
        assert(pre.records[at].owner.unwrap() < pre.next_scope);
    }
    assert(mid.records.remove(last) =~= pre.records);
    assert forall|i: int| !pre.after_attempt().holds_key(i, actor_id, key) by {
        assert(!pre.holds_key(i, actor_id, key));
    }
}

/// Recovery. When the holder of an open scope or of a claim is lost, the
/// store is as if it had never begun: the key is not known, the task is
/// free in its place, and only the scope id is used up.
pub proof fn lemma_lost_holder_leaves_nothing(
    pre: StoreView,
    actor_id: u128,
    key: Seq<char>,
    now: u64,
)
    requires
        pre.wf(),
        pre.next_scope < u64::MAX,
    ensures
        !pre.knows(actor_id, key) ==> pre.with_record(actor_id, key, now).abandoned(
            pre.next_scope,
        ) == pre.after_attempt(),
        pre.has_free() ==> pre.with_claim().abandoned(pre.next_scope) == pre.after_attempt(),
{
    let id = pre.next_scope;
    assert forall|i: int| !pre.claimed_at(i, id) by {
        if 0 <= i < pre.queue.len() && pre.queue[i].claimed_by.is_some() {
            assert(pre.queue[i].claimed_by.unwrap() < id);
        }
    }
    assert forall|i: int| !pre.owned_by(i, id) by {
        if 0 <= i < pre.records.len() && pre.records[i].owner.is_some() {
            assert(pre.records[i].owner.unwrap() < id);
        }
    }
    if !pre.knows(actor_id, key) {
        lemma_interrupted_submission_leaves_nothing(pre, actor_id, key, now);
        let mid = pre.with_record(actor_id, key, now).without_scope(id);
        assert forall|i: int| !mid.claimed_at(i, id) by {
            assert(!pre.claimed_at(i, id));
        }
    }
    if pre.has_free() {
        lemma_claim_then_release(pre);
        let mid = pre.with_claim();
        assert forall|i: int| !mid.owned_by(i, id) by {
            assert(!pre.owned_by(i, id));
        }
    }
}

/// The store after `n` rounds of the worker in each of which the mail
/// transport failed.
pub open spec fn after_failures(pre: StoreView, n: nat) -> StoreView
    decreases n,
{
    if n == 0 {
        pre
    } else {
        executed_store(after_failures(pre, (n - 1) as nat), false)
    }
}

/// At-least-once delivery. A round in which the task was not sent deletes
/// nothing: every row is still in the queue, in its place and free as
/// before, whatever the reason.
pub proof fn lemma_failed_round_keeps_every_task(pre: StoreView, sent: bool)
    requires
        pre.wf(),
        executed_result(pre, sent) != Ok::<ExecutionOutcome, TaskError>(
            ExecutionOutcome::TaskCompleted,
        ),
    ensures
        executed_store(pre, sent).queue == pre.queue,
        executed_store(pre, sent).issues == pre.issues,
        executed_store(pre, sent).records == pre.records,
        executed_store(pre, sent).wf(),
{
}

/// At-least-once delivery, for ever. However often the mail transport
/// fails, no task is deleted, and the task that was next to be claimed is
/// next to be claimed still.
pub proof fn lemma_failures_never_delete(pre: StoreView, n: nat)
    requires
        pre.wf(),
    ensures
        after_failures(pre, n).wf(),
        after_failures(pre, n).queue == pre.queue,
        after_failures(pre, n).issues == pre.issues,
        after_failures(pre, n).records == pre.records,
        after_failures(pre, n).has_free() == pre.has_free(),
        after_failures(pre, n).free_index() == pre.free_index(),
    decreases n,
{
    if n > 0 {
        lemma_failures_never_delete(pre, (n - 1) as nat);
        let before = after_failures(pre, (n - 1) as nat);
        lemma_failed_round_keeps_every_task(before, false);
    }
}

/// A row is deleted by a round of the worker only if the mail transport
/// confirmed the delivery, and then it is the row that was claimed, and no
/// other.
pub proof fn lemma_only_a_sent_task_is_deleted(pre: StoreView, sent: bool)
    requires
        pre.wf(),
    ensures
        executed_store(pre, sent).queue != pre.queue ==> sent && executed_result(pre, sent) == Ok::<
            ExecutionOutcome,
            TaskError,
        >(ExecutionOutcome::TaskCompleted) && executed_store(pre, sent).queue == pre.queue.remove(
            pre.free_index(),
        ),
{
}

/// Mutual exclusion, at any moment. Two claims that are open at once hold
/// two different rows, and each row says which claim holds it.
pub proof fn lemma_open_claims_hold_different_rows(s: StoreView, one: u64, other: u64)
    requires
        s.wf(),
        s.is_claimed(one),
        s.is_claimed(other),
        one != other,
    ensures
        s.claim_index(one) != s.claim_index(other),
        s.queue[s.claim_index(one)].claimed_by == Some(one),
        s.queue[s.claim_index(other)].claimed_by == Some(other),
{
    assert(s.claimed_at(s.claim_index(one), one));
    assert(s.claimed_at(s.claim_index(other), other));
}

/// Mutual exclusion. While a claim is open, a further claim takes another
/// row: the row it takes was free, the open claim still holds its own row,
/// and the two rows differ.
pub proof fn lemma_claims_are_exclusive(pre: StoreView, open: u64)
    requires
        pre.wf(),
        pre.is_claimed(open),
        pre.has_free(),
        pre.next_scope < u64::MAX,
    ensures
        open != pre.next_scope,
        pre.with_claim().is_claimed(open),
        pre.with_claim().is_claimed(pre.next_scope),
        pre.with_claim().claim_index(open) == pre.claim_index(open),
        pre.with_claim().claim_index(pre.next_scope) == pre.free_index(),
        pre.with_claim().claim_index(pre.next_scope) != pre.with_claim().claim_index(open),
{
    lemma_claim_then_release(pre);
    let post = pre.with_claim();
    let held = pre.claim_index(open);
    assert(pre.claimed_at(held, open));
    assert(pre.queue[held].claimed_by.unwrap() < pre.next_scope);
    assert(post.claimed_at(held, open));
    let at = post.claim_index(open);
    assert(post.claimed_at(at, open));
    if at != held {
        assert(post.queue[at] == pre.queue[at]);
    }
}

/// What happens, in order, in one round of the worker on the store `pre`,
/// where `sent` is the answer of the mail transport, should it be asked.
pub open spec fn round_events(pre: StoreView, sent: bool) -> Seq<WorkerEvent> {
    if !pre.has_free() {
        seq![WorkerEvent::Wake, WorkerEvent::QueueEmpty]
    } else if pre.next_scope == u64::MAX {
        seq![WorkerEvent::Wake, WorkerEvent::StoreFailed]
    } else if !pre.next_is_deliverable() {
        seq![WorkerEvent::Wake, WorkerEvent::Claimed, WorkerEvent::RecipientMalformed]
    } else if !sent {
        seq![
            WorkerEvent::Wake,
            WorkerEvent::Claimed,
            WorkerEvent::Prepared,
            WorkerEvent::SendFailed,
        ]
    } else {
        seq![WorkerEvent::Wake, WorkerEvent::Claimed, WorkerEvent::Prepared, WorkerEvent::Sent]
    }
}

/// The last step that the worker takes when it meets `events` in order,
/// starting in `state`; `None` where an event comes out of turn, or there
/// is no event.
pub open spec fn last_step(state: WorkerState, events: Seq<WorkerEvent>) -> Option<Transition>
    decreases events.len(),
{
    if events.len() == 0 {
        None
    } else {
        match transition(state, events[0]) {
            None => None,
            Some(step) => if events.len() == 1 {
                Some(step)
            } else {
                last_step(step.next, events.drop_first())
            },
        }
    }
}

/// The state machine and the rounds on the store agree. The events of a
/// round lead the worker from idle back to idle; its last step deletes the
/// task exactly when the round delivered, lets the task go exactly when a
/// task was claimed and not delivered, and waits as long as the round's
/// end asks.
pub proof fn lemma_round_follows_the_machine(pre: StoreView, sent: bool)
    ensures
        last_step(WorkerState::Idle, round_events(pre, sent)).is_some(),
        last_step(WorkerState::Idle, round_events(pre, sent)).unwrap().next == WorkerState::Idle,
        last_step(WorkerState::Idle, round_events(pre, sent)).unwrap().backoff_secs == backoff_of(
            executed_result(pre, sent),
        ),
        last_step(WorkerState::Idle, round_events(pre, sent)).unwrap().action
            == WorkerAction::Complete <==> executed_result(pre, sent) == Ok::<
            ExecutionOutcome,
            TaskError,
        >(ExecutionOutcome::TaskCompleted),
        last_step(WorkerState::Idle, round_events(pre, sent)).unwrap().action
            == WorkerAction::Release <==> (executed_result(pre, sent) == Err::<
            ExecutionOutcome,
            TaskError,
        >(TaskError::MalformedRecipient) || executed_result(pre, sent) == Err::<
            ExecutionOutcome,
            TaskError,
        >(TaskError::Delivery)),
{
    reveal_with_fuel(last_step, 5);
    let events = round_events(pre, sent);
    let second = events.drop_first();
    assert(events[0] == WorkerEvent::Wake);
    assert(second.len() == events.len() - 1);
    assert(second[0] == events[1]);
    if events.len() > 2 {
        let third = second.drop_first();
        assert(third[0] == events[2]);
        if events.len() > 3 {
            let fourth = third.drop_first();
            assert(fourth[0] == events[3]);
        }
    }
}

/// Invalid keys. A submission under an invalid key is refused with the
/// rule that the key breaks, a client error, and the store is not touched.
pub proof fn lemma_invalid_key_is_refused(pre: StoreView, s: Submission, issue_id: u128)
    requires
        !valid_key(s.key),
    ensures
        submitted_result(pre, s, issue_id) == Err::<ResponseView, PublishError>(
            PublishError::IdempotencyKeyError(key_refusal(s.key)),
        ),
        submitted_store(pre, s, issue_id) == pre,
        !valid_key(Seq::<char>::empty()),
{
}

} // verus!
