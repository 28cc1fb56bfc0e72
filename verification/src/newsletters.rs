//! Submitting a newsletter issue: the key is checked, the guard is opened,
//! and a first submission writes the issue, fans it out into delivery tasks
//! and saves its acknowledgment, all in one scope.

use vstd::prelude::*;
use crate::idempotency::{valid_key, IdempotencyKey, KeyError};
use crate::model::{fan_out, texts, unclaimed_rows, Issue, IssueView, RecordView, StoreView};
use crate::response::{acknowledgment, CapturedResponse, ResponseView};
use crate::store::{NextAction, Store, StoreError};

verus! {

/// The two bodies of an issue.
#[derive(Debug)]
pub struct Content {
    pub html: String,
    pub text: String,
}

/// What is submitted: the title of an issue and its bodies.
#[derive(Debug)]
pub struct BodyData {
    pub title: String,
    pub content: Content,
}

/// The part of a submission that is missing.
#[derive(Clone, Copy, Debug, PartialEq, Eq, Structural)]
pub enum PayloadError {
    MissingTitle,
    MissingHtmlContent,
    MissingTextContent,
}

impl PayloadError {
    /// The status that answers the caller: a client error.
    pub fn status_code(&self) -> (status: u16)
        ensures
            status == 400,
    {
        400
    }
}

impl BodyData {
    /// Puts a submission together. All three parts are required; the first
    /// one that is absent, in the order title, HTML, text, is reported.
    pub fn from_parts(title: Option<String>, html: Option<String>, text: Option<String>) -> (r:
        Result<BodyData, PayloadError>)
        ensures
            match r {
                Ok(body) => {
                    &&& title == Some(body.title)
                    &&& html == Some(body.content.html)
                    &&& text == Some(body.content.text)
                },
                Err(PayloadError::MissingTitle) => title.is_none(),
                Err(PayloadError::MissingHtmlContent) => title.is_some() && html.is_none(),
                Err(PayloadError::MissingTextContent) => title.is_some() && html.is_some()
                    && text.is_none(),
            },
    {
        match title {
            None => Err(PayloadError::MissingTitle),
            Some(title) => match html {
                None => Err(PayloadError::MissingHtmlContent),
                Some(html) => match text {
                    None => Err(PayloadError::MissingTextContent),
                    Some(text) => Ok(BodyData { title, content: Content { html, text } }),
                },
            },
        }
    }
}

/// Why a submission was not carried out.
#[derive(Clone, Copy, Debug, PartialEq, Eq, Structural)]
pub enum PublishError {
    /// The store failed; nothing of the submission is left in it.
    UnexpectedError(StoreError),
    /// The idempotency key was refused, before the store was touched.
    IdempotencyKeyError(KeyError),
}

impl PublishError {
    /// The status that answers the caller: a client error for a refused
    /// key, a server error for a failure of the store.
    pub fn status_code(&self) -> (status: u16)
        ensures
            status == match *self {
                PublishError::UnexpectedError(_) => 500u16,
                PublishError::IdempotencyKeyError(_) => 400u16,
            },
    {
        match self {
            PublishError::UnexpectedError(_) => 500,
            PublishError::IdempotencyKeyError(_) => 400,
        }
    }
}

/// One submission as mathematical values.
pub struct Submission {
    pub actor_id: u128,
    pub key: Seq<char>,
    pub title: Seq<char>,
    pub html: Seq<char>,
    pub text: Seq<char>,
    pub recipients: Seq<Seq<char>>,
    pub now: u64,
}

/// The rule that an invalid key breaks.
pub open spec fn key_refusal(key: Seq<char>) -> KeyError {
    if key.len() == 0 {
        KeyError::Empty
    } else {
        KeyError::TooLong
    }
}

/// The response that acknowledges an accepted submission.
pub open spec fn accepted_response() -> ResponseView {
    acknowledgment("/admin/newsletters"@)
}

/// The issue that the submission `s` writes under the id `issue_id`.
pub open spec fn issue_of(s: Submission, issue_id: u128) -> IssueView {
    IssueView {
        issue_id,
        title: s.title,
        html_body: s.html,
        text_body: s.text,
        created_at: s.now,
    }
}

/// The submission gets as far as opening a scope: its key is valid and
/// new, and the store has a scope to give.
pub open spec fn starts(pre: StoreView, s: Submission) -> bool {
    valid_key(s.key) && !pre.knows(s.actor_id, s.key) && pre.next_scope < u64::MAX
}

/// The submission is a first one and goes through: its issue and tasks are
/// written.
pub open spec fn goes_through(pre: StoreView, s: Submission, issue_id: u128) -> bool {
    starts(pre, s) && !pre.has_issue(issue_id)
}

/// What the submission `s` is answered with, where `issue_id` is the id
/// drawn for its issue.
pub open spec fn submitted_result(pre: StoreView, s: Submission, issue_id: u128) -> Result<
    ResponseView,
    PublishError,
> {
    if !valid_key(s.key) {
        Err(PublishError::IdempotencyKeyError(key_refusal(s.key)))
    } else if pre.knows(s.actor_id, s.key) {
        match pre.saved(s.actor_id, s.key) {
            Some(saved) => Ok(saved),
            None => Err(PublishError::UnexpectedError(StoreError::WouldBlock)),
        }
    } else if pre.next_scope == u64::MAX {
        Err(PublishError::UnexpectedError(StoreError::ScopesExhausted))
    } else if pre.has_issue(issue_id) {
        Err(PublishError::UnexpectedError(StoreError::DuplicateIssue))
    } else {
        Ok(accepted_response())
    }
}

/// The store after the submission `s`, where `issue_id` is the id drawn for
/// its issue. Only a first submission that goes through leaves records,
/// issues or rows behind; one that opened a scope and failed has used up a
/// scope id and nothing else.
pub open spec fn submitted_store(pre: StoreView, s: Submission, issue_id: u128) -> StoreView {
    if goes_through(pre, s, issue_id) {
        StoreView {
            records: pre.records.push(
                RecordView {
                    actor_id: s.actor_id,
                    key: s.key,
                    response: Some(accepted_response()),
                    created_at: s.now,
                    owner: None,
                },
            ),
            issues: pre.issues.push(issue_of(s, issue_id)),
            queue: pre.queue + unclaimed_rows(fan_out(issue_id, s.recipients)),
            next_scope: (pre.next_scope + 1) as u64,
        }
    } else if starts(pre, s) {
        StoreView { next_scope: (pre.next_scope + 1) as u64, ..pre }
    } else {
        pre
    }
}

/// The answer as a mathematical value.
pub open spec fn result_view(r: Result<CapturedResponse, PublishError>) -> Result<
    ResponseView,
    PublishError,
> {
    match r {
        Ok(response) => Ok(response@),
        Err(e) => Err(e),
    }
}

/// The submission made of these arguments.
pub open spec fn submission_of(
    actor_id: u128,
    key: Seq<char>,
    body: &BodyData,
    recipients: Seq<String>,
    now: u64,
) -> Submission {
    Submission {
        actor_id,
        key,
        title: body.title@,
        html: body.content.html@,
        text: body.content.text@,
        recipients: texts(recipients),
        now,
    }
}

/// The id has the marks of one drawn at random: its version is 4 and its
/// variant is the standard one.
pub open spec fn is_version_four(id: u128) -> bool {
    id & 0x0000_0000_0000_f000_c000_0000_0000_0000u128
        == 0x0000_0000_0000_4000_8000_0000_0000_0000u128
}

/// Draws the id of a new issue.
///
/// Calls `uuid::Uuid::new_v4` and hands its 128 bits back as a number, as
/// `uuid::Uuid::as_u128` gives them. The draw is random: nothing is claimed
/// of it but what holds of every version 4 id, that the version is 4 and
/// the variant is the standard one. None of this is proved here. The call
/// panics where the operating system has no random bytes to give.
#[verifier::external_body]
fn fresh_issue_id() -> (id: u128)
    ensures
        is_version_four(id),
{
    uuid::Uuid::new_v4().as_u128()
}

/// Carries out one submission, with `issue_id` as the id of the issue that
/// a first submission writes.
///
/// A refused key is answered before the store is touched. A key that was
/// used before is answered with the response saved then, and nothing is
/// written. A first submission writes its issue, one task for each of
/// `recipients` and its acknowledgment together, or nothing at all.
pub fn submit_issue(
    store: &mut Store,
    actor_id: u128,
    idempotency_key: String,
    body: &BodyData,
    recipients: &Vec<String>,
    now: u64,
    issue_id: u128,
) -> (r: Result<CapturedResponse, PublishError>)
    requires
        old(store)@.wf(),
    ensures
        final(store)@.wf(),
        result_view(r) == submitted_result(
            old(store)@,
            submission_of(actor_id, idempotency_key@, body, recipients@, now),
            issue_id,
        ),
        final(store)@ == submitted_store(
            old(store)@,
            submission_of(actor_id, idempotency_key@, body, recipients@, now),
            issue_id,
        ),
{
    let ghost pre = store@;
    let ghost s = submission_of(actor_id, idempotency_key@, body, recipients@, now);
    let key = match IdempotencyKey::parse(idempotency_key) {
        Ok(key) => key,
        Err(e) => {
            return Err(PublishError::IdempotencyKeyError(e));
        },
    };
    match store.begin(actor_id, &key, now) {
        Err(e) => Err(PublishError::UnexpectedError(e)),
        Ok(NextAction::ReturnSavedResponse(saved)) => Ok(saved),
        Ok(NextAction::StartProcessing(mut scope)) => {
            let ghost mid = store@;
            let ghost id = pre.next_scope;
            let issue = Issue {
                issue_id,
                title: body.title.clone(),
                html_body: body.content.html.clone(),
                text_body: body.content.text.clone(),
                created_at: now,
            };
            match scope.insert_issue(issue) {
                Ok(()) => {},
                Err(e) => {
                    store.rollback(scope);
                    return Err(PublishError::UnexpectedError(e));
                },
            }
            scope.enqueue_all(issue_id, recipients);
            let response = CapturedResponse::see_other("/admin/newsletters");
            proof {
                let last = pre.records.len() as int;
                assert(mid.owned_by(last, id));
                let at = mid.owner_index(id);
                assert(mid.owned_by(at, id));
                assert(at == last);
                assert(mid.records.remove(last) =~= pre.records);
                assert(scope@.tasks =~= fan_out(issue_id, s.recipients));
                assert forall|k: int| 0 <= k < scope@.tasks.len() implies mid.resolves(
                    scope@,
                    k,
                ) by {}
                if goes_through(pre, s, issue_id) {
                    assert(mid.committed(scope@, response@).records =~= submitted_store(
                        pre,
                        s,
                        issue_id,
                    ).records);
                }
            }
            match store.commit_with_response(scope, response) {
                Ok(saved) => Ok(saved),
                Err(e) => Err(PublishError::UnexpectedError(e)),
            }
        },
    }
}

/// Carries out one submission, drawing the id of its issue at random.
///
/// The answer and the store are those of `submit_issue` for the id that was
/// drawn, which is a version 4 id. Where the key is refused or was used
/// before, the draw plays no part: the store is as it was.
pub fn send_newsletter(
    store: &mut Store,
    actor_id: u128,
    idempotency_key: String,
    body: &BodyData,
    recipients: &Vec<String>,
    now: u64,
) -> (r: Result<CapturedResponse, PublishError>)
    requires
        old(store)@.wf(),
    ensures
        final(store)@.wf(),
        exists|issue_id: u128|
            {
                &&& is_version_four(issue_id)
                &&& result_view(r) == #[trigger] submitted_result(
                    old(store)@,
                    submission_of(actor_id, idempotency_key@, body, recipients@, now),
                    issue_id,
                )
                &&& final(store)@ == submitted_store(
                    old(store)@,
                    submission_of(actor_id, idempotency_key@, body, recipients@, now),
                    issue_id,
                )
            },
        !valid_key(idempotency_key@) ==> final(store)@ == old(store)@ && r == Err::<
            CapturedResponse,
            PublishError,
        >(PublishError::IdempotencyKeyError(key_refusal(idempotency_key@))),
        old(store)@.knows(actor_id, idempotency_key@) ==> final(store)@ == old(store)@,
{
    let issue_id = fresh_issue_id();
    submit_issue(store, actor_id, idempotency_key, body, recipients, now, issue_id)
}

} // verus!
