//! Publishing a newsletter issue, idempotently.
//!
//! A publish request carries a client-supplied idempotency key. The first
//! request for a `(user, key)` pair creates the issue, enqueues one
//! delivery task per confirmed subscriber and commits the redirect
//! response, all atomically; every duplicate of it — sequential or racing —
//! either replays that exact response or is told to retry while the first
//! is still in flight. No duplicate ever re-runs the side effects.

use vstd::prelude::*;

use crate::clock::current_timestamp;
use crate::idempotency::{
    begin_decision, begin_or_replay, complete, BeginDecision, IdempotencyError, NextAction,
};
use crate::key::{valid_key, IdempotencyKey, ValidationError};
use crate::outbox::{delivery_tasks_for, enqueue};
use crate::response::{see_other, see_other_model, HttpResponseDescriptor};
use crate::store::{
    lemma_record_at_index, IssueModel, RecordModel, RecordStateModel, Store, StoreModel,
    SubscriptionStatus,
};

verus! {

/// The form fields of a publish request.
pub struct FormData {
    pub title: String,
    pub text_content: String,
    pub html_content: String,
    pub idempotency_key: String,
}

/// Why a publish request was rejected without publishing anything.
#[derive(Clone, Copy, Debug, PartialEq, Eq, Structural)]
pub enum PublishRequestError {
    /// The idempotency key is malformed; rejected before any storage
    /// access, client-fixable.
    Validation(ValidationError),
    /// A duplicate of a request that is still in flight; the caller should
    /// retry shortly, after the first request has committed.
    ConflictRetryLater,
}

/// Where a successful publication redirects the client.
pub open spec fn publish_redirect_location() -> Seq<char> {
    "/admin/newsletters"@
}

/// The store after a fresh publish by `user_id` under `key` committed at
/// time `now`: the ledger row is completed with the redirect response, the
/// issue exists under the next free id, and the delivery queue has gained
/// one task per subscriber confirmed at publish time.
pub open spec fn published_store(
    m: StoreModel,
    user_id: u64,
    key: Seq<char>,
    title: Seq<char>,
    text_content: Seq<char>,
    html_content: Seq<char>,
    now: i64,
) -> StoreModel {
    StoreModel {
        idempotency: m.idempotency.push(
            RecordModel {
                user_id,
                key,
                state: RecordStateModel::Completed(see_other_model(publish_redirect_location())),
                created_at: now,
            },
        ),
        issues: m.issues.push(
            IssueModel {
                issue_id: m.next_issue_id,
                title,
                text_content,
                html_content,
                published_at: now,
            },
        ),
        delivery_queue: m.delivery_queue + delivery_tasks_for(
            m.confirmed_emails(),
            m.next_issue_id,
        ),
        next_issue_id: (m.next_issue_id + 1) as u64,
        ..m
    }
}

/// Handles one publish request against the store as of time `now`.
pub fn publish_newsletter_at(store: &mut Store, user_id: u64, form: &FormData, now: i64) -> (r:
    Result<HttpResponseDescriptor, PublishRequestError>)
    requires
        old(store)@.wf(),
        old(store)@.next_issue_id < u64::MAX,
    ensures
        final(store)@.wf(),
        !valid_key(form.idempotency_key@) ==> {
            &&& r matches Err(e) && e is Validation
            &&& final(store)@ == old(store)@
        },
        valid_key(form.idempotency_key@) ==> match begin_decision(
            old(store)@,
            user_id,
            form.idempotency_key@,
        ) {
            BeginDecision::Starts => {
                &&& r matches Ok(out) && out@ == see_other_model(publish_redirect_location())
                &&& final(store)@ == published_store(
                    old(store)@,
                    user_id,
                    form.idempotency_key@,
                    form.title@,
                    form.text_content@,
                    form.html_content@,
                    now,
                )
            },
            BeginDecision::Replays(resp) => {
                &&& r matches Ok(out) && out@ == resp
                &&& final(store)@ == old(store)@
            },
            BeginDecision::Conflicts => {
                &&& r == Err::<HttpResponseDescriptor, _>(PublishRequestError::ConflictRetryLater)
                &&& final(store)@ == old(store)@
            },
        },
{
    let ghost pre = old(store)@;
    let key = match IdempotencyKey::try_from(form.idempotency_key.clone()) {
        Ok(k) => k,
        Err(e) => {
            return Err(PublishRequestError::Validation(e));
        },
    };
    match begin_or_replay(store, user_id, &key, now) {
        Err(IdempotencyError::ConflictRetryLater) => Err(PublishRequestError::ConflictRetryLater),
        Ok(NextAction::ReturnSavedResponse(saved)) => Ok(saved),
        Ok(NextAction::StartProcessing(mut txn)) => {
            let ghost reserved = store@;
            let _issue_id = enqueue(
                store,
                &mut txn,
                form.title.as_str(),
                form.text_content.as_str(),
                form.html_content.as_str(),
                now,
            );
            let response = see_other("/admin/newsletters");
            let response = complete(store, txn, response);
            proof {
                let target = published_store(
                    pre,
                    user_id,
                    form.idempotency_key@,
                    form.title@,
                    form.text_content@,
                    form.html_content@,
                    now,
                );
                let n = pre.idempotency.len() as int;
                let staged = StoreModel { next_issue_id: (pre.next_issue_id + 1) as u64, ..reserved };
                lemma_record_at_index(staged, n, user_id, key@);
                assert(store@.idempotency =~= target.idempotency);
                assert(store@.issues =~= target.issues);
                assert(reserved.confirmed_emails() == pre.confirmed_emails());
                assert(store@.delivery_queue =~= target.delivery_queue);
                assert(store@ =~= target);
            }
            Ok(response)
        },
    }
}

/// Handles one publish request, stamping it with the current wall-clock
/// time. Everything but the recorded timestamps is as
/// [`publish_newsletter_at`] states for some time value.
pub fn publish_newsletter(store: &mut Store, user_id: u64, form: &FormData) -> (r: Result<
    HttpResponseDescriptor,
    PublishRequestError,
>)
    requires
        old(store)@.wf(),
        old(store)@.next_issue_id < u64::MAX,
    ensures
        final(store)@.wf(),
        !valid_key(form.idempotency_key@) ==> {
            &&& r matches Err(e) && e is Validation
            &&& final(store)@ == old(store)@
        },
        valid_key(form.idempotency_key@) ==> match begin_decision(
            old(store)@,
            user_id,
            form.idempotency_key@,
        ) {
            BeginDecision::Starts => {
                &&& r matches Ok(out) && out@ == see_other_model(publish_redirect_location())
                &&& exists|now: i64|
                    final(store)@ == #[trigger] published_store(
                        old(store)@,
                        user_id,
                        form.idempotency_key@,
                        form.title@,
                        form.text_content@,
                        form.html_content@,
                        now,
                    )
            },
            BeginDecision::Replays(resp) => {
                &&& r matches Ok(out) && out@ == resp
                &&& final(store)@ == old(store)@
            },
            BeginDecision::Conflicts => {
                &&& r == Err::<HttpResponseDescriptor, _>(PublishRequestError::ConflictRetryLater)
                &&& final(store)@ == old(store)@
            },
        },
{
    let now = current_timestamp();
    publish_newsletter_at(store, user_id, form, now)
}

/// Submitting the same `(user, key, payload)` twice in sequence: the first
/// call starts, commits the redirect response and adds exactly one issue;
/// on the resulting store the same `(user, key)` is decided as a replay of
/// exactly that response, so by [`publish_newsletter_at`]'s contract the
/// second call returns the identical response and changes nothing.
pub proof fn lemma_second_submission_replays(
    m: StoreModel,
    user_id: u64,
    key: Seq<char>,
    title: Seq<char>,
    text_content: Seq<char>,
    html_content: Seq<char>,
    now: i64,
)
    requires
        m.wf(),
        !m.has_record(user_id, key),
    ensures
        begin_decision(m, user_id, key) is Starts,
        begin_decision(
            published_store(m, user_id, key, title, text_content, html_content, now),
            user_id,
            key,
        ) == BeginDecision::Replays(see_other_model(publish_redirect_location())),
        published_store(m, user_id, key, title, text_content, html_content, now).issues.len()
            == m.issues.len() + 1,
{
    let mid = published_store(m, user_id, key, title, text_content, html_content, now);
    let rec = RecordModel {
        user_id,
        key,
        state: RecordStateModel::Completed(see_other_model(publish_redirect_location())),
        created_at: now,
    };
    crate::store::lemma_pushed_record_unique(m, mid, rec);
    lemma_record_at_index(mid, m.idempotency.len() as int, user_id, key);
}

/// Two different users using the identical literal key value do not
/// interfere: one user's publication leaves the other user's decision for
/// that key exactly as it was.
pub proof fn lemma_users_independent(
    m: StoreModel,
    publishing_user: u64,
    other_user: u64,
    key: Seq<char>,
    title: Seq<char>,
    text_content: Seq<char>,
    html_content: Seq<char>,
    now: i64,
)
    requires
        m.wf(),
        publishing_user != other_user,
        !m.has_record(publishing_user, key),
    ensures
        begin_decision(
            published_store(m, publishing_user, key, title, text_content, html_content, now),
            other_user,
            key,
        ) == begin_decision(m, other_user, key),
{
    let mid = published_store(m, publishing_user, key, title, text_content, html_content, now);
    let rec = RecordModel {
        user_id: publishing_user,
        key,
        state: RecordStateModel::Completed(see_other_model(publish_redirect_location())),
        created_at: now,
    };
    crate::store::lemma_pushed_record_unique(m, mid, rec);
    if m.has_record(other_user, key) {
        let i = m.record_index(other_user, key);
        assert(0 <= i < m.idempotency.len() && m.idempotency[i].user_id == other_user
            && m.idempotency[i].key == key);
        lemma_record_at_index(m, i, other_user, key);
        lemma_record_at_index(mid, i, other_user, key);
    } else {
        assert(!mid.has_record(other_user, key)) by {
            if mid.has_record(other_user, key) {
                let w = choose|w: int|
                    0 <= w < mid.idempotency.len() && (#[trigger] mid.idempotency[w]).user_id
                        == other_user && mid.idempotency[w].key == key;
                if w < m.idempotency.len() {
                    assert(m.idempotency[w] == mid.idempotency[w]);
                    assert(m.has_record(other_user, key));
                }
            }
        }
    }
}

/// The flash message shown after a successful publication.
pub fn success_message() -> (r: String)
    ensures
        r@ == "The newsletter issue has been published!"@,
{
    "The newsletter issue has been published!".to_owned()
}

/// A subscriber the newsletter is delivered to.
pub struct ConfirmedSubscriber {
    pub email: String,
}

/// Reads the emails of the currently confirmed subscribers, in insertion
/// order.
pub fn get_confirmed_subscribers(store: &Store) -> (r: Vec<ConfirmedSubscriber>)
    ensures
        r@.map_values(|c: ConfirmedSubscriber| c.email@) == store@.confirmed_emails(),
{
    let n = store.subscribers.len();
    let mut out: Vec<ConfirmedSubscriber> = Vec::new();
    let mut i: usize = 0;
    while i < n
        invariant
            n == store.subscribers.len(),
            i <= n,
            out@.map_values(|c: ConfirmedSubscriber| c.email@) =~= crate::store::emails_of(
                crate::store::confirmed_of(store@.subscribers.take(i as int)),
            ),
        decreases n - i,
    {
        let ghost prefix = store@.subscribers.take(i as int);
        let ghost prefix1 = store@.subscribers.take(i + 1);
        let sub = &store.subscribers[i];
        proof {
            reveal(Seq::filter);
            assert(prefix1.drop_last() =~= prefix);
            assert(prefix1.last() == sub@);
        }
        if sub.status == SubscriptionStatus::Confirmed {
            let ghost out0 = out@;
            out.push(ConfirmedSubscriber { email: sub.email.clone() });
            proof {
                reveal(Seq::filter);
                assert(crate::store::confirmed_of(prefix1) == crate::store::confirmed_of(
                    prefix,
                ).push(sub@));
                assert(crate::store::emails_of(crate::store::confirmed_of(prefix1))
                    =~= crate::store::emails_of(crate::store::confirmed_of(prefix)).push(
                    sub@.email,
                ));
                assert(out@.map_values(|c: ConfirmedSubscriber| c.email@) =~= out0.map_values(
                    |c: ConfirmedSubscriber| c.email@,
                ).push(sub@.email));
                assert(out@.map_values(|c: ConfirmedSubscriber| c.email@)
                    =~= crate::store::emails_of(crate::store::confirmed_of(prefix1)));
            }
        } else {
            proof {
                reveal(Seq::filter);
                assert(crate::store::confirmed_of(prefix1) == crate::store::confirmed_of(prefix));
            }
        }
        i = i + 1;
    }
    proof {
        assert(store@.subscribers.take(n as int) =~= store@.subscribers);
    }
    out
}

} // verus!
