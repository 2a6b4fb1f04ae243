use server_scaffold::confirmation::{
    confirm, get_subscriber_id_from_token, insert_subscription_token, Parameters, TokenError,
};
use server_scaffold::publish::get_confirmed_subscribers;
use server_scaffold::store::{Store, SubscriptionStatus};
use server_scaffold::subscriptions::{insert_subscriber_at, subscriptions, FormData, SubscribeError};

fn form(name: &str, email: &str) -> FormData {
    FormData { name: name.to_string(), email: email.to_string() }
}

#[test]
fn subscribe_returns_a_200_for_valid_form_data() {
    let mut store = Store::new();
    let r = subscriptions(&mut store, &form("Chris topher", "any_thing@gmail.com"));
    assert_eq!(r.status_code, 200);
    assert_eq!(store.subscribers.len(), 1);
    assert_eq!(store.subscribers[0].name, "Chris topher");
    assert_eq!(store.subscribers[0].email, "any_thing@gmail.com");
    assert_eq!(store.subscribers[0].status, SubscriptionStatus::PendingConfirmation);
}

#[test]
fn duplicate_emails_are_refused_with_a_500() {
    let mut store = Store::new();
    assert!(insert_subscriber_at(&mut store, &form("Jane", "jane@example.com"), 100).is_ok());
    assert_eq!(
        insert_subscriber_at(&mut store, &form("Other Jane", "jane@example.com"), 200),
        Err(SubscribeError::DuplicateEmail)
    );
    let r = subscriptions(&mut store, &form("Third Jane", "jane@example.com"));
    assert_eq!(r.status_code, 500);
    assert_eq!(store.subscribers.len(), 1);
}

#[test]
fn confirm_with_an_unknown_token_is_unauthorized() {
    let mut store = Store::new();
    let r = confirm(
        &mut store,
        &Parameters { subscription_token: "never-issued".to_string() },
    );
    assert_eq!(r.status_code, 401);
}

#[test]
fn confirm_marks_the_subscriber_confirmed() {
    let mut store = Store::new();
    let id = insert_subscriber_at(&mut store, &form("Jane", "jane@example.com"), 100).unwrap();
    let token = "tok-123".to_string();
    insert_subscription_token(&mut store, &token, id).unwrap();
    assert_eq!(get_subscriber_id_from_token(&store, &token), Some(id));

    assert!(get_confirmed_subscribers(&store).is_empty());
    let r = confirm(&mut store, &Parameters { subscription_token: token });
    assert_eq!(r.status_code, 200);
    assert_eq!(store.subscribers[0].status, SubscriptionStatus::Confirmed);

    let confirmed = get_confirmed_subscribers(&store);
    assert_eq!(confirmed.len(), 1);
    assert_eq!(confirmed[0].email, "jane@example.com");
}

#[test]
fn tokens_are_unique_and_must_point_at_a_subscriber() {
    let mut store = Store::new();
    let id = insert_subscriber_at(&mut store, &form("Jane", "jane@example.com"), 100).unwrap();
    let token = "tok-123".to_string();
    assert!(insert_subscription_token(&mut store, &token, id).is_ok());
    assert_eq!(
        insert_subscription_token(&mut store, &token, id),
        Err(TokenError::DuplicateToken)
    );
    assert_eq!(
        insert_subscription_token(&mut store, &"tok-456".to_string(), id + 999),
        Err(TokenError::UnknownSubscriber)
    );
    assert_eq!(store.tokens.len(), 1);
}

#[test]
fn unknown_tokens_do_not_change_the_store() {
    let mut store = Store::new();
    let id = insert_subscriber_at(&mut store, &form("Jane", "jane@example.com"), 100).unwrap();
    insert_subscription_token(&mut store, &"tok-123".to_string(), id).unwrap();
    confirm(&mut store, &Parameters { subscription_token: "wrong".to_string() });
    assert_eq!(store.subscribers[0].status, SubscriptionStatus::PendingConfirmation);
}
