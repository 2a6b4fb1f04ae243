//! Subscribing to the newsletter.
//!
//! A new subscriber is stored pending confirmation; emails are unique, so a
//! second subscription under the same email is refused by the store and the
//! endpoint answers with a server error, the way a database surfaces a
//! uniqueness-constraint violation.

use vstd::prelude::*;

use crate::clock::current_timestamp;
use crate::response::{status_only, status_only_model, HttpResponseDescriptor};
use crate::store::{Store, StoreModel, Subscriber, SubscriberModel, SubscriptionStatus};

verus! {

/// The form fields of a subscribe request.
pub struct FormData {
    pub name: String,
    pub email: String,
}

/// Why a subscription could not be stored.
#[derive(Clone, Copy, Debug, PartialEq, Eq, Structural)]
pub enum SubscribeError {
    /// A subscriber with this email already exists; emails are unique.
    DuplicateEmail,
}

/// The store after `email`/`name` subscribed at time `now`: one more
/// subscriber, pending confirmation, under the next free id.
pub open spec fn subscribed_store(
    m: StoreModel,
    email: Seq<char>,
    name: Seq<char>,
    now: i64,
) -> StoreModel {
    StoreModel {
        subscribers: m.subscribers.push(
            SubscriberModel {
                id: m.next_subscriber_id,
                email,
                name,
                status: SubscriptionStatus::PendingConfirmation,
                subscribed_at: now,
            },
        ),
        next_subscriber_id: (m.next_subscriber_id + 1) as u64,
        ..m
    }
}

/// Saves a new subscriber, pending confirmation, as of time `now`; refuses
/// an email that is already subscribed.
pub fn insert_subscriber_at(store: &mut Store, form: &FormData, now: i64) -> (r: Result<
    u64,
    SubscribeError,
>)
    requires
        old(store)@.wf(),
        old(store)@.next_subscriber_id < u64::MAX,
    ensures
        final(store)@.wf(),
        old(store)@.has_subscriber_email(form.email@) ==> {
            &&& r == Err::<u64, SubscribeError>(SubscribeError::DuplicateEmail)
            &&& final(store)@ == old(store)@
        },
        !old(store)@.has_subscriber_email(form.email@) ==> {
            &&& r == Ok::<u64, SubscribeError>(old(store)@.next_subscriber_id)
            &&& final(store)@ == subscribed_store(old(store)@, form.email@, form.name@, now)
        },
{
    let ghost pre = old(store)@;
    let n = store.subscribers.len();
    let mut i: usize = 0;
    while i < n
        invariant
            pre == old(store)@,
            pre.wf(),
            store@ == pre,
            n == store.subscribers.len(),
            i <= n,
            forall|j: int|
                0 <= j < i ==> (#[trigger] store@.subscribers[j]).email != form.email@,
        decreases n - i,
    {
        if store.subscribers[i].email == form.email {
            proof {
                assert(store@.subscribers[i as int].email == form.email@);
                assert(pre.has_subscriber_email(form.email@));
            }
            return Err(SubscribeError::DuplicateEmail);
        }
        i = i + 1;
    }
    let id = store.next_subscriber_id;
    store.next_subscriber_id = id + 1;
    store.subscribers.push(
        Subscriber {
            id,
            email: form.email.clone(),
            name: form.name.clone(),
            status: SubscriptionStatus::PendingConfirmation,
            subscribed_at: now,
        },
    );
    proof {
        let target = subscribed_store(pre, form.email@, form.name@, now);
        assert(store@.subscribers =~= target.subscribers);
        assert(store@ =~= target);
        assert forall|a: int, b: int| 0 <= a < b < store@.subscribers.len() implies (
        #[trigger] store@.subscribers[a]).id != (#[trigger] store@.subscribers[b]).id
            && store@.subscribers[a].email != store@.subscribers[b].email by {
            if b == pre.subscribers.len() {
                assert(store@.subscribers[a] == pre.subscribers[a]);
                assert(pre.subscribers[a].id < pre.next_subscriber_id);
                if pre.subscribers[a].email == form.email@ {
                    assert(pre.has_subscriber_email(form.email@));
                }
            } else {
                assert(store@.subscribers[a] == pre.subscribers[a]);
                assert(store@.subscribers[b] == pre.subscribers[b]);
            }
        }
        assert forall|a: int| 0 <= a < store@.tokens.len() implies store@.has_subscriber(
            (#[trigger] store@.tokens[a]).subscriber_id,
        ) by {
            assert(pre.has_subscriber(pre.tokens[a].subscriber_id));
            let w = choose|w: int|
                0 <= w < pre.subscribers.len() && (#[trigger] pre.subscribers[w]).id
                    == pre.tokens[a].subscriber_id;
            assert(store@.subscribers[w].id == store@.tokens[a].subscriber_id);
        }
        assert forall|a: int| 0 <= a < store@.delivery_queue.len() implies store@.has_issue(
            (#[trigger] store@.delivery_queue[a]).issue_id,
        ) by {
            assert(pre.has_issue(pre.delivery_queue[a].issue_id));
            let w = choose|w: int|
                0 <= w < pre.issues.len() && (#[trigger] pre.issues[w]).issue_id
                    == pre.delivery_queue[a].issue_id;
            assert(store@.issues[w].issue_id == store@.delivery_queue[a].issue_id);
        }
    }
    Ok(id)
}

/// Saves a new subscriber, stamping it with the current wall-clock time.
pub fn insert_subscriber(store: &mut Store, form: &FormData) -> (r: Result<u64, SubscribeError>)
    requires
        old(store)@.wf(),
        old(store)@.next_subscriber_id < u64::MAX,
    ensures
        final(store)@.wf(),
        old(store)@.has_subscriber_email(form.email@) ==> {
            &&& r == Err::<u64, SubscribeError>(SubscribeError::DuplicateEmail)
            &&& final(store)@ == old(store)@
        },
        !old(store)@.has_subscriber_email(form.email@) ==> {
            &&& r == Ok::<u64, SubscribeError>(old(store)@.next_subscriber_id)
            &&& exists|now: i64|
                final(store)@ == #[trigger] subscribed_store(
                    old(store)@,
                    form.email@,
                    form.name@,
                    now,
                )
        },
{
    let now = current_timestamp();
    insert_subscriber_at(store, form, now)
}

/// Handles a subscribe request: stores the subscriber and answers 200, or
/// answers 500 when the store refuses the email.
pub fn subscriptions(store: &mut Store, form: &FormData) -> (r: HttpResponseDescriptor)
    requires
        old(store)@.wf(),
        old(store)@.next_subscriber_id < u64::MAX,
    ensures
        final(store)@.wf(),
        old(store)@.has_subscriber_email(form.email@) ==> {
            &&& r@ == status_only_model(500)
            &&& final(store)@ == old(store)@
        },
        !old(store)@.has_subscriber_email(form.email@) ==> {
            &&& r@ == status_only_model(200)
            &&& exists|now: i64|
                final(store)@ == #[trigger] subscribed_store(
                    old(store)@,
                    form.email@,
                    form.name@,
                    now,
                )
        },
{
    match insert_subscriber(store, form) {
        Ok(_) => status_only(200),
        Err(SubscribeError::DuplicateEmail) => status_only(500),
    }
}

} // verus!
