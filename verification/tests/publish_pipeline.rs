use server_scaffold::idempotency::{begin_or_replay, complete, rollback, IdempotencyError, NextAction};
use server_scaffold::key::IdempotencyKey;
use server_scaffold::publish::{publish_newsletter_at, FormData, PublishRequestError};
use server_scaffold::response::see_other;
use server_scaffold::store::Store;
use server_scaffold::subscriptions;

fn subscribe(store: &mut Store, name: &str, email: &str, confirmed: bool) -> u64 {
    let form = subscriptions::FormData { name: name.to_string(), email: email.to_string() };
    let id = subscriptions::insert_subscriber_at(store, &form, 1_000).unwrap();
    if confirmed {
        server_scaffold::confirmation::confirm_subscriber(store, id);
    }
    id
}

fn publish_form(title: &str, key: &str) -> FormData {
    FormData {
        title: title.to_string(),
        text_content: "Newsletter body as plain text.".to_string(),
        html_content: "<p>Newsletter body as HTML.</p>".to_string(),
        idempotency_key: key.to_string(),
    }
}

#[test]
fn newsletter_creation_is_idempotent() {
    let mut store = Store::new();
    subscribe(&mut store, "Jane", "jane@example.com", true);
    subscribe(&mut store, "John", "john@example.com", true);
    let form = publish_form("Newsletter title", "retry-safe-key");

    let first = publish_newsletter_at(&mut store, 7, &form, 2_000).unwrap();
    assert_eq!(first.status_code, 303);
    assert_eq!(first.headers, vec![("Location".to_string(), "/admin/newsletters".to_string())]);
    assert_eq!(store.issues.len(), 1);
    assert_eq!(store.delivery_queue.len(), 2);

    let second = publish_newsletter_at(&mut store, 7, &form, 3_000).unwrap();
    assert_eq!(first, second);
    assert_eq!(store.issues.len(), 1);
    assert_eq!(store.delivery_queue.len(), 2);
}

#[test]
fn scenario_key_abc_publishes_once_and_replays() {
    let mut store = Store::new();
    subscribe(&mut store, "Jane", "jane@example.com", true);
    let form = publish_form("Hi", "abc");

    let first = publish_newsletter_at(&mut store, 1, &form, 10).unwrap();
    assert_eq!(first.status_code, 303);
    let body = first.body.clone();

    let second = publish_newsletter_at(&mut store, 1, &form, 20).unwrap();
    assert_eq!(second.status_code, first.status_code);
    assert_eq!(second.body, body);
    assert_eq!(store.issues.len(), 1);
    assert_eq!(store.issues[0].title, "Hi");
}

#[test]
fn concurrent_form_submission_is_handled_gracefully() {
    // Two requests race on the same (user, key): the loser observes the
    // winner's reservation, is told to retry, and after the winner commits
    // its retry replays the winner's exact response.
    let mut store = Store::new();
    subscribe(&mut store, "Jane", "jane@example.com", true);
    let key = IdempotencyKey::try_from("race-key".to_string()).unwrap();

    let txn = match begin_or_replay(&mut store, 7, &key, 100).unwrap() {
        NextAction::StartProcessing(t) => t,
        NextAction::ReturnSavedResponse(_) => panic!("fresh key must start processing"),
    };

    // The duplicate arrives while the winner is still in flight.
    match begin_or_replay(&mut store, 7, &key, 101) {
        Err(IdempotencyError::ConflictRetryLater) => (),
        _ => panic!("a duplicate of an in-flight request must be told to retry"),
    }

    let winner_response = complete(&mut store, txn, see_other("/admin/newsletters"));

    // The duplicate retries after the winner committed.
    match begin_or_replay(&mut store, 7, &key, 102).unwrap() {
        NextAction::ReturnSavedResponse(replayed) => assert_eq!(replayed, winner_response),
        NextAction::StartProcessing(_) => panic!("a completed key must replay, not restart"),
    }
}

#[test]
fn conflict_is_surfaced_by_the_publish_endpoint() {
    let mut store = Store::new();
    let key = IdempotencyKey::try_from("in-flight".to_string()).unwrap();
    let txn = match begin_or_replay(&mut store, 7, &key, 100).unwrap() {
        NextAction::StartProcessing(t) => t,
        NextAction::ReturnSavedResponse(_) => panic!("fresh key must start processing"),
    };
    let form = publish_form("Newsletter title", "in-flight");
    match publish_newsletter_at(&mut store, 7, &form, 101) {
        Err(PublishRequestError::ConflictRetryLater) => (),
        _ => panic!("publishing against an in-flight reservation must report a conflict"),
    }
    rollback(&mut store, txn);
}

#[test]
fn two_users_with_the_same_key_publish_independently() {
    let mut store = Store::new();
    subscribe(&mut store, "Jane", "jane@example.com", true);
    let form = publish_form("Newsletter title", "shared-literal-key");

    let r1 = publish_newsletter_at(&mut store, 1, &form, 100).unwrap();
    let r2 = publish_newsletter_at(&mut store, 2, &form, 200).unwrap();
    assert_eq!(r1.status_code, 303);
    assert_eq!(r2.status_code, 303);
    assert_eq!(store.issues.len(), 2, "each user's publish must create its own issue");
}

#[test]
fn malformed_keys_are_rejected_before_any_storage_access() {
    let mut store = Store::new();
    subscribe(&mut store, "Jane", "jane@example.com", true);
    for bad in [String::new(), "a".repeat(50)] {
        let form = publish_form("Newsletter title", &bad);
        match publish_newsletter_at(&mut store, 7, &form, 100) {
            Err(PublishRequestError::Validation(_)) => (),
            _ => panic!("a malformed key must be rejected with a validation error"),
        }
    }
    assert_eq!(store.issues.len(), 0);
    assert_eq!(store.idempotency.len(), 0);
    assert_eq!(store.delivery_queue.len(), 0);
}

#[test]
fn rollback_leaves_the_key_unconsumed() {
    let mut store = Store::new();
    let key = IdempotencyKey::try_from("released".to_string()).unwrap();
    let txn = match begin_or_replay(&mut store, 7, &key, 100).unwrap() {
        NextAction::StartProcessing(t) => t,
        NextAction::ReturnSavedResponse(_) => panic!("fresh key must start processing"),
    };
    rollback(&mut store, txn);
    assert_eq!(store.idempotency.len(), 0);
    let form = publish_form("Newsletter title", "released");
    assert!(publish_newsletter_at(&mut store, 7, &form, 200).is_ok());
}

#[test]
fn enqueue_snapshots_the_confirmed_subscribers() {
    let mut store = Store::new();
    subscribe(&mut store, "Jane", "jane@example.com", true);
    subscribe(&mut store, "John", "john@example.com", true);
    let late_id = subscribe(&mut store, "Late", "late@example.com", false);

    let form = publish_form("Newsletter title", "snapshot-key");
    publish_newsletter_at(&mut store, 7, &form, 2_000).unwrap();
    assert_eq!(store.delivery_queue.len(), 2, "one task per subscriber confirmed at enqueue time");

    // A subscriber confirmed after the publish is not retroactively included.
    server_scaffold::confirmation::confirm_subscriber(&mut store, late_id);
    assert_eq!(store.delivery_queue.len(), 2);
    let emails: Vec<&str> =
        store.delivery_queue.iter().map(|t| t.subscriber_email.as_str()).collect();
    assert_eq!(emails, vec!["jane@example.com", "john@example.com"]);
}

#[test]
fn newsletter_are_not_delivered_to_unconfirmed_subscribers() {
    let mut store = Store::new();
    subscribe(&mut store, "Pending", "pending@example.com", false);
    let form = publish_form("Newsletter title", "no-deliveries");
    publish_newsletter_at(&mut store, 7, &form, 2_000).unwrap();
    assert_eq!(store.issues.len(), 1);
    assert_eq!(store.delivery_queue.len(), 0);
}

#[test]
fn publish_stamps_the_current_time() {
    // The clock-backed entry point behaves like the pinned one for some
    // timestamp; the pipeline's observable effects do not depend on it.
    let mut store = Store::new();
    subscribe(&mut store, "Jane", "jane@example.com", true);
    let form = publish_form("Newsletter title", "wall-clock");
    let r = server_scaffold::publish::publish_newsletter(&mut store, 7, &form).unwrap();
    assert_eq!(r.status_code, 303);
    assert_eq!(store.issues.len(), 1);
    assert_eq!(store.delivery_queue.len(), 1);
}
