use server_scaffold::publish::{publish_newsletter_at, FormData};
use server_scaffold::store::Store;
use server_scaffold::worker::{claim_task, resolve_task, DispatchOutcome, TaskResolution};

fn store_with_queue(emails: &[&str]) -> Store {
    let mut store = Store::new();
    for (i, email) in emails.iter().enumerate() {
        let form = server_scaffold::subscriptions::FormData {
            name: format!("Subscriber {}", i),
            email: email.to_string(),
        };
        let id = server_scaffold::subscriptions::insert_subscriber_at(&mut store, &form, 1_000)
            .unwrap();
        server_scaffold::confirmation::confirm_subscriber(&mut store, id);
    }
    let form = FormData {
        title: "Newsletter title".to_string(),
        text_content: "Newsletter body as plain text.".to_string(),
        html_content: "<p>Newsletter body as HTML.</p>".to_string(),
        idempotency_key: "worker-tests".to_string(),
    };
    publish_newsletter_at(&mut store, 7, &form, 2_000).unwrap();
    store
}

#[test]
fn newsletters_are_delivered_to_confirmed_subscribers() {
    let mut store = store_with_queue(&["jane@example.com", "john@example.com"]);
    let mut delivered = Vec::new();
    loop {
        let claim = match claim_task(&mut store) {
            Some(c) => c,
            None => break,
        };
        let issue = store.get_issue(claim.issue_id).expect("queued tasks reference their issue");
        assert_eq!(issue.title, "Newsletter title");
        delivered.push(claim.subscriber_email.clone());
        let r = resolve_task(&mut store, claim, DispatchOutcome::Delivered, 3_000, 3);
        assert_eq!(r, TaskResolution::Completed);
    }
    assert_eq!(delivered, vec!["jane@example.com".to_string(), "john@example.com".to_string()]);
    assert!(store.delivery_queue.is_empty());
}

#[test]
fn two_claimants_never_hold_the_same_task() {
    let mut store = store_with_queue(&["jane@example.com", "john@example.com"]);
    let first = claim_task(&mut store).expect("two tasks are claimable");
    let second = claim_task(&mut store).expect("the second task is still claimable");
    assert!(
        !(first.issue_id == second.issue_id && first.subscriber_email == second.subscriber_email),
        "concurrent claimants must be handed distinct tasks"
    );
    // Both rows are locked now: a third claimant finds nothing.
    assert!(claim_task(&mut store).is_none());
}

#[test]
fn a_claimed_task_is_invisible_until_resolved() {
    let mut store = store_with_queue(&["jane@example.com"]);
    let claim = claim_task(&mut store).unwrap();
    assert!(claim_task(&mut store).is_none(), "a locked row must not be claimable");
    let r = resolve_task(
        &mut store,
        claim,
        DispatchOutcome::RetryableFailure("connection reset".to_string()),
        3_000,
        3,
    );
    assert_eq!(r, TaskResolution::Requeued);
    assert!(claim_task(&mut store).is_some(), "a requeued row is claimable again");
}

#[test]
fn retryable_failures_are_counted_and_exhaustion_discards() {
    let mut store = store_with_queue(&["jane@example.com"]);
    let max_retries = 3;

    for attempt in 1..=max_retries {
        let claim = claim_task(&mut store).expect("the task is still queued");
        let r = resolve_task(
            &mut store,
            claim,
            DispatchOutcome::RetryableFailure(format!("timeout on attempt {}", attempt)),
            3_000 + attempt as i64,
            max_retries,
        );
        if attempt < max_retries {
            assert_eq!(r, TaskResolution::Requeued);
            assert_eq!(store.delivery_queue.len(), 1);
            assert_eq!(store.delivery_queue[0].retry_count, attempt);
            assert_eq!(store.delivery_queue[0].last_attempt_at, Some(3_000 + attempt as i64));
            assert_eq!(
                store.delivery_queue[0].last_error,
                Some(format!("timeout on attempt {}", attempt))
            );
        } else {
            assert_eq!(r, TaskResolution::Discarded, "the failure that reaches the budget discards");
        }
    }
    assert!(store.delivery_queue.is_empty(), "a discarded task is removed from the queue");
    assert!(claim_task(&mut store).is_none(), "a discarded task is never retried again");
}

#[test]
fn success_below_the_budget_is_removed_immediately() {
    let mut store = store_with_queue(&["jane@example.com"]);
    let claim = claim_task(&mut store).unwrap();
    let r = resolve_task(
        &mut store,
        claim,
        DispatchOutcome::RetryableFailure("greylisted".to_string()),
        3_001,
        3,
    );
    assert_eq!(r, TaskResolution::Requeued);

    // The second attempt succeeds: the task is gone at once.
    let claim = claim_task(&mut store).unwrap();
    let r = resolve_task(&mut store, claim, DispatchOutcome::Delivered, 3_002, 3);
    assert_eq!(r, TaskResolution::Completed);
    assert!(store.delivery_queue.is_empty());
}

#[test]
fn permanent_failures_are_discarded_without_retrying() {
    let mut store = store_with_queue(&["jane@example.com", "john@example.com"]);
    let claim = claim_task(&mut store).unwrap();
    let r = resolve_task(
        &mut store,
        claim,
        DispatchOutcome::PermanentFailure("malformed recipient address".to_string()),
        3_000,
        3,
    );
    assert_eq!(r, TaskResolution::Discarded);
    // The poison row is gone; the rest of the queue is untouched.
    assert_eq!(store.delivery_queue.len(), 1);
    assert_eq!(store.delivery_queue[0].subscriber_email, "john@example.com");
}
