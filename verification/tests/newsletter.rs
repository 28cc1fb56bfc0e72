use issue_delivery::idempotency::{IdempotencyKey, KeyError};
use issue_delivery::model::Issue;
use issue_delivery::newsletters::{
    send_newsletter, submit_issue, BodyData, Content, PayloadError, PublishError,
};
use issue_delivery::response::CapturedResponse;
use issue_delivery::store::{NextAction, Store, StoreError};

fn body() -> BodyData {
    BodyData {
        title: "Newsletter title".to_string(),
        content: Content {
            html: "<p>Newsletter body as HTML</p>".to_string(),
            text: "Newsletter body as plain text".to_string(),
        },
    }
}

fn recipients(n: usize) -> Vec<String> {
    (0..n).map(|i| format!("reader{}@example.com", i)).collect()
}

fn key(text: &str) -> IdempotencyKey {
    IdempotencyKey::parse(text.to_string()).unwrap()
}

fn rows_of(store: &Store, issue_id: u128) -> Vec<String> {
    let mut found = Vec::new();
    for i in 0..store.queue_len() {
        let row = store.row(i);
        if row.task.issue_id == issue_id {
            found.push(row.task.recipient.clone());
        }
    }
    found
}

fn scope_of(action: NextAction) -> issue_delivery::store::Scope {
    match action {
        NextAction::StartProcessing(scope) => scope,
        NextAction::ReturnSavedResponse(_) => panic!("a new key must start processing"),
    }
}

#[test]
fn newsletters_returns_400_for_invalid_data() {
    let html = Some("<p>Newsletter body as HTML</p>".to_string());
    let text = Some("Newsletter body as plain text".to_string());
    let title = Some("Newsletter title".to_string());
    assert_eq!(
        BodyData::from_parts(None, html.clone(), text.clone()).unwrap_err(),
        PayloadError::MissingTitle
    );
    assert_eq!(
        BodyData::from_parts(title.clone(), None, text.clone()).unwrap_err(),
        PayloadError::MissingHtmlContent
    );
    assert_eq!(
        BodyData::from_parts(title.clone(), html.clone(), None).unwrap_err(),
        PayloadError::MissingTextContent
    );
    assert_eq!(
        BodyData::from_parts(None, None, None).unwrap_err(),
        PayloadError::MissingTitle
    );
    let whole = BodyData::from_parts(title, html, text).unwrap();
    assert_eq!(whole.title, "Newsletter title");
    assert_eq!(whole.content.html, "<p>Newsletter body as HTML</p>");
    assert_eq!(whole.content.text, "Newsletter body as plain text");
}

#[test]
fn publish_errors_have_their_statuses() {
    assert_eq!(PublishError::IdempotencyKeyError(KeyError::Empty).status_code(), 400);
    assert_eq!(PublishError::IdempotencyKeyError(KeyError::TooLong).status_code(), 400);
    assert_eq!(PublishError::UnexpectedError(StoreError::WouldBlock).status_code(), 500);
}

#[test]
fn empty_key_is_rejected_before_any_store_access() {
    let mut store = Store::new();
    let r = send_newsletter(&mut store, 1, String::new(), &body(), &recipients(3), 7);
    assert_eq!(r.unwrap_err(), PublishError::IdempotencyKeyError(KeyError::Empty));
    assert_eq!(store.record_count(), 0);
    assert_eq!(store.issue_count(), 0);
    assert_eq!(store.queue_len(), 0);
}

#[test]
fn too_long_key_is_rejected_before_any_store_access() {
    let mut store = Store::new();
    let r = send_newsletter(&mut store, 1, "x".repeat(50), &body(), &recipients(3), 7);
    assert_eq!(r.unwrap_err(), PublishError::IdempotencyKeyError(KeyError::TooLong));
    assert_eq!(store.record_count(), 0);
    assert_eq!(store.issue_count(), 0);
    assert_eq!(store.queue_len(), 0);
}

#[test]
fn newsletters_are_delivered_to_confirmed_subscribers() {
    let mut store = Store::new();
    let r = submit_issue(&mut store, 9, "key-1".to_string(), &body(), &recipients(3), 42, 1000)
        .unwrap();
    assert_eq!(r.status, 303);
    assert_eq!(
        r.headers,
        vec![("location".to_string(), "/admin/newsletters".to_string())]
    );
    assert!(r.body.is_empty());
    assert_eq!(store.issue_count(), 1);
    assert_eq!(store.record_count(), 1);
    assert_eq!(store.queue_len(), 3);
    assert_eq!(
        rows_of(&store, 1000),
        vec![
            "reader0@example.com".to_string(),
            "reader1@example.com".to_string(),
            "reader2@example.com".to_string()
        ]
    );
    for i in 0..3 {
        assert_eq!(store.row(i).claimed_by, None);
    }
    let issue = store.get_issue(1000).unwrap();
    assert_eq!(issue.issue_id, 1000);
    assert_eq!(issue.title, "Newsletter title");
    assert_eq!(issue.html_body, "<p>Newsletter body as HTML</p>");
    assert_eq!(issue.text_body, "Newsletter body as plain text");
    assert_eq!(issue.created_at, 42);
    assert!(store.get_issue(1001).is_none());
}

#[test]
fn newsletters_are_not_delivered_to_unconfirmed_subscribers() {
    // nobody is confirmed: the issue is accepted and no task is queued
    let mut store = Store::new();
    let r = submit_issue(&mut store, 9, "key-1".to_string(), &body(), &Vec::new(), 42, 1000)
        .unwrap();
    assert_eq!(r.status, 303);
    assert_eq!(store.issue_count(), 1);
    assert_eq!(store.queue_len(), 0);
}

#[test]
fn newsletter_creation_is_idempotent() {
    let mut store = Store::new();
    let first = send_newsletter(&mut store, 9, "key-1".to_string(), &body(), &recipients(2), 1)
        .unwrap();
    let second = send_newsletter(&mut store, 9, "key-1".to_string(), &body(), &recipients(2), 2)
        .unwrap();
    assert_eq!(first.status, second.status);
    assert_eq!(first.headers, second.headers);
    assert_eq!(first.body, second.body);
    assert_eq!(store.issue_count(), 1);
    assert_eq!(store.record_count(), 1);
    assert_eq!(store.queue_len(), 2);
}

#[test]
fn resubmission_with_other_content_returns_the_saved_response() {
    let mut store = Store::new();
    let first =
        submit_issue(&mut store, 9, "key-1".to_string(), &body(), &recipients(2), 1, 77).unwrap();
    let other = BodyData {
        title: "Another".to_string(),
        content: Content { html: "h".to_string(), text: "t".to_string() },
    };
    let second =
        submit_issue(&mut store, 9, "key-1".to_string(), &other, &recipients(5), 2, 78).unwrap();
    assert_eq!(first.status, second.status);
    assert_eq!(first.headers, second.headers);
    assert_eq!(first.body, second.body);
    assert_eq!(store.issue_count(), 1);
    assert_eq!(store.queue_len(), 2);
    assert!(store.get_issue(78).is_none());
}

#[test]
fn concurrent_form_submission_is_handled_gracefully() {
    let mut store = Store::new();
    let k = key("K1");
    // the first submission holds the key and is still at work
    let mut scope = scope_of(store.begin(9, &k, 1).unwrap());
    // the second one arrives meanwhile and has to wait
    assert_eq!(store.begin(9, &k, 1).unwrap_err(), StoreError::WouldBlock);
    let r = send_newsletter(&mut store, 9, "K1".to_string(), &body(), &recipients(2), 1);
    assert_eq!(r.unwrap_err(), PublishError::UnexpectedError(StoreError::WouldBlock));
    assert!(store.get_saved_response(9, &k).is_none());
    // the first one finishes
    scope
        .insert_issue(Issue {
            issue_id: 500,
            title: "Newsletter title".to_string(),
            html_body: "<p>Newsletter body as HTML</p>".to_string(),
            text_body: "Newsletter body as plain text".to_string(),
            created_at: 1,
        })
        .unwrap();
    scope.enqueue_all(500, &recipients(2));
    let first = store
        .commit_with_response(scope, CapturedResponse::see_other("/admin/newsletters"))
        .unwrap();
    // the second one is let through and gets the same answer
    let second = send_newsletter(&mut store, 9, "K1".to_string(), &body(), &recipients(2), 1)
        .unwrap();
    assert_eq!(first.status, second.status);
    assert_eq!(first.body, second.body);
    assert_eq!(first.headers, second.headers);
    assert_eq!(store.issue_count(), 1);
    assert_eq!(store.queue_len(), 2);
    assert_eq!(rows_of(&store, 500).len(), 2);
}

#[test]
fn distinct_keys_with_the_same_content_create_two_issues() {
    let mut store = Store::new();
    let a = submit_issue(&mut store, 9, "K1".to_string(), &body(), &recipients(3), 1, 10).unwrap();
    let b = submit_issue(&mut store, 9, "K2".to_string(), &body(), &recipients(3), 1, 11).unwrap();
    assert_eq!(a.status, b.status);
    assert_eq!(store.issue_count(), 2);
    assert_eq!(store.record_count(), 2);
    assert_eq!(store.queue_len(), 6);
    assert_eq!(rows_of(&store, 10).len(), 3);
    assert_eq!(rows_of(&store, 11).len(), 3);
}

#[test]
fn the_same_key_of_another_actor_is_a_new_submission() {
    let mut store = Store::new();
    submit_issue(&mut store, 1, "K1".to_string(), &body(), &recipients(1), 1, 10).unwrap();
    submit_issue(&mut store, 2, "K1".to_string(), &body(), &recipients(1), 1, 11).unwrap();
    assert_eq!(store.issue_count(), 2);
    assert_eq!(store.queue_len(), 2);
}

#[test]
fn taken_issue_id_fails_and_leaves_nothing() {
    let mut store = Store::new();
    submit_issue(&mut store, 9, "K1".to_string(), &body(), &recipients(2), 1, 10).unwrap();
    let r = submit_issue(&mut store, 9, "K2".to_string(), &body(), &recipients(4), 1, 10);
    assert_eq!(r.unwrap_err(), PublishError::UnexpectedError(StoreError::DuplicateIssue));
    assert_eq!(store.issue_count(), 1);
    assert_eq!(store.record_count(), 1);
    assert_eq!(store.queue_len(), 2);
    // the key is as if it had never been submitted
    assert!(store.get_saved_response(9, &key("K2")).is_none());
    let again = submit_issue(&mut store, 9, "K2".to_string(), &body(), &recipients(4), 1, 12);
    assert!(again.is_ok());
    assert_eq!(store.queue_len(), 6);
}

#[test]
fn interrupted_submission_leaves_no_rows() {
    let mut store = Store::new();
    let k = key("K1");
    let mut scope = scope_of(store.begin(9, &k, 1).unwrap());
    scope
        .insert_issue(Issue {
            issue_id: 500,
            title: "t".to_string(),
            html_body: "h".to_string(),
            text_body: "x".to_string(),
            created_at: 1,
        })
        .unwrap();
    scope.enqueue_all(500, &recipients(3));
    assert_eq!(store.record_count(), 1);
    store.rollback(scope);
    assert_eq!(store.record_count(), 0);
    assert_eq!(store.issue_count(), 0);
    assert_eq!(store.queue_len(), 0);
    // a later attempt under the key starts afresh
    let scope = scope_of(store.begin(9, &k, 2).unwrap());
    store.rollback(scope);
}

#[test]
fn a_scope_stages_one_issue_at_most() {
    let mut store = Store::new();
    let mut scope = scope_of(store.begin(9, &key("K1"), 1).unwrap());
    let issue = |id: u128| Issue {
        issue_id: id,
        title: "t".to_string(),
        html_body: "h".to_string(),
        text_body: "x".to_string(),
        created_at: 1,
    };
    assert!(scope.insert_issue(issue(1)).is_ok());
    assert_eq!(scope.insert_issue(issue(2)).unwrap_err(), StoreError::IssueAlreadyStaged);
    store.commit_with_response(scope, CapturedResponse::see_other("/")).unwrap();
    assert_eq!(store.issue_count(), 1);
    assert!(store.get_issue(1).is_some());
}

#[test]
fn tasks_of_an_issue_that_does_not_exist_are_refused() {
    let mut store = Store::new();
    let mut scope = scope_of(store.begin(9, &key("K1"), 1).unwrap());
    scope.enqueue_all(404, &recipients(2));
    let r = store.commit_with_response(scope, CapturedResponse::see_other("/"));
    assert_eq!(r.unwrap_err(), StoreError::MissingIssue);
    assert_eq!(store.record_count(), 0);
    assert_eq!(store.queue_len(), 0);
}

#[test]
fn a_scope_cannot_be_committed_on_a_store_that_does_not_know_it() {
    let mut store = Store::new();
    let scope = scope_of(store.begin(9, &key("K1"), 1).unwrap());
    let mut other = Store::new();
    let r = other.commit_with_response(scope, CapturedResponse::see_other("/"));
    assert_eq!(r.unwrap_err(), StoreError::UnknownScope);
    assert_eq!(other.record_count(), 0);
}

#[test]
fn saved_response_is_returned_by_begin() {
    let mut store = Store::new();
    let k = key("K1");
    let scope = scope_of(store.begin(9, &k, 1).unwrap());
    let response = CapturedResponse {
        status: 200,
        headers: vec![("a".to_string(), "b".to_string())],
        body: vec![9, 8, 7],
    };
    let committed = store.commit_with_response(scope, response).unwrap();
    assert_eq!(committed.status, 200);
    assert_eq!(committed.body, vec![9, 8, 7]);
    match store.begin(9, &k, 5).unwrap() {
        NextAction::ReturnSavedResponse(saved) => {
            assert_eq!(saved.status, 200);
            assert_eq!(saved.headers, vec![("a".to_string(), "b".to_string())]);
            assert_eq!(saved.body, vec![9, 8, 7]);
        }
        NextAction::StartProcessing(_) => panic!("the key was used before"),
    }
    let saved = store.get_saved_response(9, &k).unwrap();
    assert_eq!(saved.body, vec![9, 8, 7]);
    assert_eq!(store.record_count(), 1);
}

#[test]
fn drawn_issue_ids_are_version_four() {
    let mut store = Store::new();
    send_newsletter(&mut store, 9, "K1".to_string(), &body(), &recipients(1), 1).unwrap();
    send_newsletter(&mut store, 9, "K2".to_string(), &body(), &recipients(1), 1).unwrap();
    let first = store.row(0).task.issue_id;
    let second = store.row(1).task.issue_id;
    assert_ne!(first, second);
    for id in [first, second] {
        assert_eq!((id >> 76) & 0xf, 4);
        assert_eq!((id >> 62) & 0x3, 2);
        assert!(store.get_issue(id).is_some());
    }
}

#[test]
fn lost_scope_frees_its_key() {
    let mut store = Store::new();
    let k = key("K1");
    // the first scope of a new store has the id 0
    let scope = scope_of(store.begin(9, &k, 1).unwrap());
    drop(scope);
    assert_eq!(store.begin(9, &k, 1).unwrap_err(), StoreError::WouldBlock);
    store.abandon(0);
    assert_eq!(store.record_count(), 0);
    assert!(matches!(store.begin(9, &k, 2), Ok(NextAction::StartProcessing(_))));
    // an id that holds nothing changes nothing
    store.abandon(7);
    assert_eq!(store.record_count(), 1);
}

#[test]
fn lost_claim_frees_its_task() {
    let mut store = Store::new();
    submit_issue(&mut store, 9, "K1".to_string(), &body(), &recipients(1), 1, 10).unwrap();
    // the submission used the id 0, the claim gets the id 1
    let claimed = store.try_claim_one().unwrap().unwrap();
    drop(claimed);
    assert_eq!(store.row(0).claimed_by, Some(1));
    assert!(store.try_claim_one().unwrap().is_none());
    store.abandon(1);
    assert_eq!(store.row(0).claimed_by, None);
    assert_eq!(store.queue_len(), 1);
    assert!(store.try_claim_one().unwrap().is_some());
}
