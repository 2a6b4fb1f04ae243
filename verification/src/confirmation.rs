//! Confirming a pending subscription.
//!
//! A subscriber confirms through a token handed out at subscription time:
//! the endpoint resolves the token to the subscriber and marks the row
//! confirmed. Confirmation touches only the subscriber's status — in
//! particular it never touches the delivery queue, which is what keeps the
//! outbox snapshot of an earlier publication intact.

use vstd::prelude::*;

use crate::response::{status_only, status_only_model, HttpResponseDescriptor};
use crate::store::{
    lemma_subscriber_at_index, lemma_token_at_index, Store, StoreModel, Subscriber,
    SubscriberModel, SubscriptionStatus, SubscriptionToken, TokenModel,
};

verus! {

/// The query parameters of a confirmation request.
pub struct Parameters {
    pub subscription_token: String,
}

/// Why a confirmation token could not be stored.
#[derive(Clone, Copy, Debug, PartialEq, Eq, Structural)]
pub enum TokenError {
    /// The token value is already in use; tokens are unique.
    DuplicateToken,
    /// No subscriber with the given id exists.
    UnknownSubscriber,
}

/// The store after the subscriber with `id` has been confirmed; a store
/// without such a subscriber is unchanged (the update matches no row).
pub open spec fn confirmed_store(m: StoreModel, id: u64) -> StoreModel {
    if m.has_subscriber(id) {
        let i = m.subscriber_index(id);
        StoreModel {
            subscribers: m.subscribers.update(
                i,
                SubscriberModel {
                    id: m.subscribers[i].id,
                    email: m.subscribers[i].email,
                    name: m.subscribers[i].name,
                    status: SubscriptionStatus::Confirmed,
                    subscribed_at: m.subscribers[i].subscribed_at,
                },
            ),
            ..m
        }
    } else {
        m
    }
}

/// Confirming a subscriber never touches the delivery queue: the tasks an
/// earlier publication enqueued are a snapshot of the subscribers confirmed
/// at publish time, and subscribers confirmed afterwards are not
/// retroactively included.
pub proof fn lemma_confirmation_preserves_queue(m: StoreModel, id: u64)
    ensures
        confirmed_store(m, id).delivery_queue == m.delivery_queue,
        confirmed_store(m, id).issues == m.issues,
{
}

/// Marks the subscriber with `subscriber_id` as confirmed. Everything else
/// in the store — the delivery queue above all — is untouched.
pub fn confirm_subscriber(store: &mut Store, subscriber_id: u64)
    requires
        old(store)@.wf(),
    ensures
        final(store)@.wf(),
        final(store)@ == confirmed_store(old(store)@, subscriber_id),
{
    let ghost pre = old(store)@;
    let n = store.subscribers.len();
    let mut i: usize = 0;
    while i < n
        invariant
            pre == old(store)@,
            pre.wf(),
            store@ == pre,
            n == store.subscribers.len(),
            i <= n,
            forall|j: int| 0 <= j < i ==> (#[trigger] store@.subscribers[j]).id != subscriber_id,
        decreases n - i,
    {
        if store.subscribers[i].id == subscriber_id {
            proof {
                lemma_subscriber_at_index(pre, i as int, subscriber_id);
            }
            let s = store.subscribers.remove(i);
            let updated = Subscriber {
                id: s.id,
                email: s.email,
                name: s.name,
                status: SubscriptionStatus::Confirmed,
                subscribed_at: s.subscribed_at,
            };
            store.subscribers.insert(i, updated);
            proof {
                let target = confirmed_store(pre, subscriber_id);
                assert(store@.subscribers =~= target.subscribers);
                assert(store@ =~= target);
                assert forall|a: int, b: int| 0 <= a < b < store@.subscribers.len() implies (
                #[trigger] store@.subscribers[a]).id != (#[trigger] store@.subscribers[b]).id
                    && store@.subscribers[a].email != store@.subscribers[b].email by {
                    assert(store@.subscribers[a].id == pre.subscribers[a].id
                        && store@.subscribers[a].email == pre.subscribers[a].email);
                    assert(store@.subscribers[b].id == pre.subscribers[b].id
                        && store@.subscribers[b].email == pre.subscribers[b].email);
                }
                assert forall|a: int| 0 <= a < store@.tokens.len() implies store@.has_subscriber(
                    (#[trigger] store@.tokens[a]).subscriber_id,
                ) by {
                    assert(pre.has_subscriber(pre.tokens[a].subscriber_id));
                    let w = choose|w: int|
                        0 <= w < pre.subscribers.len() && (#[trigger] pre.subscribers[w]).id
                            == pre.tokens[a].subscriber_id;
                    assert(store@.subscribers[w].id == store@.tokens[a].subscriber_id);
                }
                assert forall|a: int| 0 <= a < store@.delivery_queue.len()
                    implies store@.has_issue((#[trigger] store@.delivery_queue[a]).issue_id) by {
                    assert(pre.has_issue(pre.delivery_queue[a].issue_id));
                    let w = choose|w: int|
                        0 <= w < pre.issues.len() && (#[trigger] pre.issues[w]).issue_id
                            == pre.delivery_queue[a].issue_id;
                    assert(store@.issues[w].issue_id == store@.delivery_queue[a].issue_id);
                }
            }
            return ;
        }
        i = i + 1;
    }
}

/// Resolves a confirmation token to the subscriber it was issued for.
pub fn get_subscriber_id_from_token(store: &Store, subscription_token: &String) -> (r: Option<
    u64,
>)
    requires
        store@.wf(),
    ensures
        match r {
            Some(id) => store@.has_token(subscription_token@) && store@.token_at(
                subscription_token@,
            ).subscriber_id == id,
            None => !store@.has_token(subscription_token@),
        },
{
    let n = store.tokens.len();
    let mut i: usize = 0;
    while i < n
        invariant
            store@.wf(),
            n == store.tokens.len(),
            i <= n,
            forall|j: int|
                0 <= j < i ==> (#[trigger] store@.tokens[j]).token != subscription_token@,
        decreases n - i,
    {
        if store.tokens[i].token == *subscription_token {
            proof {
                lemma_token_at_index(store@, i as int, subscription_token@);
            }
            return Some(store.tokens[i].subscriber_id);
        }
        i = i + 1;
    }
    None
}

/// Handles a confirmation request: 200 once the token's subscriber is
/// confirmed, 401 for a token that was never issued.
pub fn confirm(store: &mut Store, parameters: &Parameters) -> (r: HttpResponseDescriptor)
    requires
        old(store)@.wf(),
    ensures
        final(store)@.wf(),
        old(store)@.has_token(parameters.subscription_token@) ==> {
            &&& r@ == status_only_model(200)
            &&& final(store)@ == confirmed_store(
                old(store)@,
                old(store)@.token_at(parameters.subscription_token@).subscriber_id,
            )
        },
        !old(store)@.has_token(parameters.subscription_token@) ==> {
            &&& r@ == status_only_model(401)
            &&& final(store)@ == old(store)@
        },
{
    match get_subscriber_id_from_token(store, &parameters.subscription_token) {
        None => status_only(401),
        Some(subscriber_id) => {
            confirm_subscriber(store, subscriber_id);
            status_only(200)
        },
    }
}

/// Whether a subscriber with `id` exists.
fn subscriber_exists(store: &Store, id: u64) -> (r: bool)
    ensures
        r == store@.has_subscriber(id),
{
    let n = store.subscribers.len();
    let mut i: usize = 0;
    while i < n
        invariant
            n == store.subscribers.len(),
            i <= n,
            forall|j: int| 0 <= j < i ==> (#[trigger] store@.subscribers[j]).id != id,
        decreases n - i,
    {
        if store.subscribers[i].id == id {
            proof {
                assert(store@.subscribers[i as int].id == id);
            }
            return true;
        }
        i = i + 1;
    }
    proof {
        assert(!store@.has_subscriber(id)) by {
            if store@.has_subscriber(id) {
                let w = choose|w: int|
                    0 <= w < store@.subscribers.len() && (#[trigger] store@.subscribers[w]).id
                        == id;
            }
        }
    }
    false
}

/// Stores a confirmation token for an existing subscriber; refuses a token
/// value that is already in use and a subscriber that does not exist.
pub fn insert_subscription_token(store: &mut Store, token: &String, subscriber_id: u64) -> (r:
    Result<(), TokenError>)
    requires
        old(store)@.wf(),
    ensures
        final(store)@.wf(),
        old(store)@.has_token(token@) ==> {
            &&& r == Err::<(), TokenError>(TokenError::DuplicateToken)
            &&& final(store)@ == old(store)@
        },
        !old(store)@.has_token(token@) && !old(store)@.has_subscriber(subscriber_id) ==> {
            &&& r == Err::<(), TokenError>(TokenError::UnknownSubscriber)
            &&& final(store)@ == old(store)@
        },
        !old(store)@.has_token(token@) && old(store)@.has_subscriber(subscriber_id) ==> {
            &&& r == Ok::<(), TokenError>(())
            &&& final(store)@ == (StoreModel {
                tokens: old(store)@.tokens.push(TokenModel { token: token@, subscriber_id }),
                ..old(store)@
            })
        },
{
    let ghost pre = old(store)@;
    let n = store.tokens.len();
    let mut i: usize = 0;
    while i < n
        invariant
            pre == old(store)@,
            pre.wf(),
            store@ == pre,
            n == store.tokens.len(),
            i <= n,
            forall|j: int| 0 <= j < i ==> (#[trigger] store@.tokens[j]).token != token@,
        decreases n - i,
    {
        if store.tokens[i].token == *token {
            proof {
                assert(store@.tokens[i as int].token == token@);
                assert(pre.has_token(token@));
            }
            return Err(TokenError::DuplicateToken);
        }
        i = i + 1;
    }
    if !subscriber_exists(store, subscriber_id) {
        return Err(TokenError::UnknownSubscriber);
    }
    store.tokens.push(SubscriptionToken { token: token.clone(), subscriber_id });
    proof {
        let target = StoreModel {
            tokens: pre.tokens.push(TokenModel { token: token@, subscriber_id }),
            ..pre
        };
        assert(store@.tokens =~= target.tokens);
        assert(store@ =~= target);
        assert forall|a: int, b: int| 0 <= a < b < store@.tokens.len() implies (
        #[trigger] store@.tokens[a]).token != (#[trigger] store@.tokens[b]).token by {
            if b == pre.tokens.len() {
                assert(store@.tokens[a] == pre.tokens[a]);
                if pre.tokens[a].token == token@ {
                    assert(pre.has_token(token@));
                }
            } else {
                assert(store@.tokens[a] == pre.tokens[a]);
                assert(store@.tokens[b] == pre.tokens[b]);
            }
        }
        assert forall|a: int| 0 <= a < store@.tokens.len() implies store@.has_subscriber(
            (#[trigger] store@.tokens[a]).subscriber_id,
        ) by {
            if a < pre.tokens.len() {
                assert(store@.tokens[a] == pre.tokens[a]);
                assert(pre.has_subscriber(pre.tokens[a].subscriber_id));
                let w = choose|w: int|
                    0 <= w < pre.subscribers.len() && (#[trigger] pre.subscribers[w]).id
                        == pre.tokens[a].subscriber_id;
                assert(store@.subscribers[w].id == store@.tokens[a].subscriber_id);
            } else {
                assert(pre.has_subscriber(subscriber_id));
                let w = choose|w: int|
                    0 <= w < pre.subscribers.len() && (#[trigger] pre.subscribers[w]).id
                        == subscriber_id;
                assert(store@.subscribers[w].id == store@.tokens[a].subscriber_id);
            }
        }
        assert forall|a: int| 0 <= a < store@.delivery_queue.len() implies store@.has_issue(
            (#[trigger] store@.delivery_queue[a]).issue_id,
        ) by {
            assert(pre.has_issue(pre.delivery_queue[a].issue_id));
            let w = choose|w: int|
                0 <= w < pre.issues.len() && (#[trigger] pre.issues[w]).issue_id
                    == pre.delivery_queue[a].issue_id;
            assert(store@.issues[w].issue_id == store@.delivery_queue[a].issue_id);
        }
    }
    Ok(())
}

} // verus!
