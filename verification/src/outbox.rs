//! The transactional outbox step.
//!
//! Publishing stages a newsletter issue together with one delivery task per
//! currently-confirmed subscriber on the open transaction, so that the
//! issue, its delivery queue rows and the idempotency bookkeeping commit
//! atomically. The subscriber set is a snapshot: subscribers confirmed
//! after the transaction commits are not retroactively included.

use vstd::prelude::*;

use crate::idempotency::Transaction;
use crate::store::{
    confirmed_of, emails_of, DeliveryTask, IssueModel, NewsletterIssue, Store, StoreModel,
    SubscriberModel, SubscriptionStatus, TaskModel, lemma_references_transfer,
    lemma_record_at_index,
};

verus! {

/// One fresh delivery task per email, in order, all referencing `issue_id`.
pub open spec fn delivery_tasks_for(emails: Seq<Seq<char>>, issue_id: u64) -> Seq<TaskModel> {
    emails.map_values(
        |e: Seq<char>|
            TaskModel {
                issue_id,
                subscriber_email: e,
                retry_count: 0,
                last_attempt_at: Option::None,
                last_error: Option::None,
                claimed: false,
            },
    )
}

/// The outbox enqueues exactly one task per confirmed subscriber in the
/// snapshot: the counts agree.
pub proof fn lemma_enqueued_task_count(emails: Seq<Seq<char>>, issue_id: u64)
    ensures
        delivery_tasks_for(emails, issue_id).len() == emails.len(),
{
}

/// In a subscriber table with pairwise-distinct emails, the confirmed
/// snapshot consists of rows of the table and lists pairwise-distinct
/// emails.
proof fn lemma_confirmed_snapshot_distinct(subs: Seq<SubscriberModel>)
    requires
        forall|i: int, j: int|
            0 <= i < j < subs.len() ==> (#[trigger] subs[i]).email != (#[trigger] subs[j]).email,
    ensures
        forall|i: int|
            0 <= i < confirmed_of(subs).len() ==> exists|a: int|
                0 <= a < subs.len() && (#[trigger] subs[a]) == (#[trigger] confirmed_of(subs)[i]),
        forall|i: int, j: int|
            0 <= i < j < confirmed_of(subs).len() ==> (#[trigger] confirmed_of(subs)[i]).email != (
            #[trigger] confirmed_of(subs)[j]).email,
    decreases subs.len(),
{
    reveal(Seq::filter);
    if subs.len() > 0 {
        let prefix = subs.drop_last();
        lemma_confirmed_snapshot_distinct(prefix);
        let f = confirmed_of(subs);
        let fp = confirmed_of(prefix);
        assert forall|i: int| 0 <= i < f.len() implies exists|a: int|
            0 <= a < subs.len() && (#[trigger] subs[a]) == (#[trigger] f[i]) by {
            if i < fp.len() {
                assert(f[i] == fp[i]);
                let a = choose|a: int| 0 <= a < prefix.len() && (#[trigger] prefix[a]) == fp[i];
                assert(subs[a] == f[i]);
            } else {
                assert(subs[subs.len() - 1] == f[i]);
            }
        }
        assert forall|i: int, j: int| 0 <= i < j < f.len() implies (#[trigger] f[i]).email != (
        #[trigger] f[j]).email by {
            if j < fp.len() {
                assert(f[i] == fp[i] && f[j] == fp[j]);
            } else {
                // `j` is the last subscriber; `i` comes from the prefix, and
                // prefix emails differ from the last row's email.
                assert(f[i] == fp[i]);
                let a = choose|a: int| 0 <= a < prefix.len() && (#[trigger] prefix[a]) == fp[i];
                assert(subs[a] == f[i]);
                assert(subs[a].email != subs[subs.len() - 1].email);
            }
        }
    }
}

/// Stages the newsletter issue row on the open transaction, drawing a
/// fresh unique id from the store's issue sequence. The sequence advances
/// immediately (like a database sequence, it is not transactional); the
/// issue itself reaches the store only when the transaction commits.
pub fn insert_newsletter_issue(
    store: &mut Store,
    txn: &mut Transaction,
    title: &str,
    text_content: &str,
    html_content: &str,
    now: i64,
) -> (r: u64)
    requires
        old(store)@.wf(),
        old(txn).valid_for(old(store)@),
        old(txn).staged_issue_model() is None,
        old(store)@.next_issue_id < u64::MAX,
    ensures
        final(store)@.wf(),
        r == old(store)@.next_issue_id,
        final(store)@ == (StoreModel {
            next_issue_id: (old(store)@.next_issue_id + 1) as u64,
            ..old(store)@
        }),
        final(txn).user_id == old(txn).user_id,
        final(txn).key == old(txn).key,
        final(txn).staged_issue_model() == Some(
            IssueModel {
                issue_id: r,
                title: title@,
                text_content: text_content@,
                html_content: html_content@,
                published_at: now,
            },
        ),
        final(txn).staged_tasks_model() == old(txn).staged_tasks_model(),
        final(txn).valid_for(final(store)@),
{
    let ghost pre = old(store)@;
    let issue_id = store.next_issue_id;
    store.next_issue_id = issue_id + 1;
    txn.staged_issue = Some(
        NewsletterIssue {
            issue_id,
            title: title.to_owned(),
            text_content: text_content.to_owned(),
            html_content: html_content.to_owned(),
            published_at: now,
        },
    );
    proof {
        assert(store@ =~= StoreModel { next_issue_id: (pre.next_issue_id + 1) as u64, ..pre });
        lemma_references_transfer(pre, store@);
        let i = pre.record_index(txn.user_id, txn.key@);
        lemma_record_at_index(store@, i, txn.user_id, txn.key@);
        assert(txn.staged_tasks_model() =~= old(txn).staged_tasks_model());
        assert(!store@.has_issue(issue_id)) by {
            if store@.has_issue(issue_id) {
                let w = choose|w: int|
                    0 <= w < store@.issues.len() && (#[trigger] store@.issues[w]).issue_id
                        == issue_id;
                assert(pre.issues[w].issue_id < pre.next_issue_id);
            }
        }
    }
    issue_id
}

/// Stages one delivery task per currently-confirmed subscriber, as a
/// snapshot of the subscriber table at the time of the call, all
/// referencing the staged issue.
pub fn enqueue_delivery_tasks(store: &Store, txn: &mut Transaction, issue_id: u64)
    requires
        store@.wf(),
        old(txn).valid_for(store@),
        match old(txn).staged_issue_model() {
            Some(iss) => iss.issue_id == issue_id,
            None => false,
        },
        old(txn).staged_tasks_model().len() == 0,
    ensures
        final(txn).user_id == old(txn).user_id,
        final(txn).key == old(txn).key,
        final(txn).staged_issue_model() == old(txn).staged_issue_model(),
        final(txn).staged_tasks_model() == delivery_tasks_for(store@.confirmed_emails(), issue_id),
        final(txn).valid_for(store@),
{
    let n = store.subscribers.len();
    let mut tasks: Vec<DeliveryTask> = Vec::new();
    let mut i: usize = 0;
    while i < n
        invariant
            n == store.subscribers.len(),
            i <= n,
            tasks@.map_values(|t: DeliveryTask| t@) =~= delivery_tasks_for(
                emails_of(confirmed_of(store@.subscribers.take(i as int))),
                issue_id,
            ),
        decreases n - i,
    {
        let ghost prefix = store@.subscribers.take(i as int);
        let ghost prefix1 = store@.subscribers.take(i + 1);
        let ghost tasks0 = tasks@;
        let sub = &store.subscribers[i];
        proof {
            reveal(Seq::filter);
            assert(prefix1.drop_last() =~= prefix);
            assert(prefix1.last() == sub@);
        }
        if sub.status == SubscriptionStatus::Confirmed {
            let task = DeliveryTask {
                issue_id,
                subscriber_email: sub.email.clone(),
                retry_count: 0,
                last_attempt_at: None,
                last_error: None,
                claimed: false,
            };
            let ghost newt = task@;
            tasks.push(task);
            proof {
                reveal(Seq::filter);
                assert(sub@.status is Confirmed);
                assert(confirmed_of(prefix1) == confirmed_of(prefix).push(sub@));
                assert(emails_of(confirmed_of(prefix1)) =~= emails_of(confirmed_of(prefix)).push(
                    sub@.email,
                ));
                assert(newt == (TaskModel {
                    issue_id,
                    subscriber_email: sub@.email,
                    retry_count: 0,
                    last_attempt_at: Option::None,
                    last_error: Option::None,
                    claimed: false,
                }));
                assert(tasks@.map_values(|t: DeliveryTask| t@) =~= tasks0.map_values(
                    |t: DeliveryTask| t@,
                ).push(newt));
                assert(delivery_tasks_for(emails_of(confirmed_of(prefix1)), issue_id)
                    =~= delivery_tasks_for(emails_of(confirmed_of(prefix)), issue_id).push(newt));
                assert(tasks@.map_values(|t: DeliveryTask| t@) =~= delivery_tasks_for(
                    emails_of(confirmed_of(prefix1)),
                    issue_id,
                ));
            }
        } else {
            proof {
                reveal(Seq::filter);
                assert(!(sub@.status is Confirmed));
                assert(confirmed_of(prefix1) == confirmed_of(prefix));
                assert(tasks@.map_values(|t: DeliveryTask| t@) =~= delivery_tasks_for(
                    emails_of(confirmed_of(prefix1)),
                    issue_id,
                ));
            }
        }
        i = i + 1;
    }
    proof {
        assert(store@.subscribers.take(n as int) =~= store@.subscribers);
    }
    txn.staged_tasks = tasks;
    proof {
        assert(txn.staged_tasks_model() =~= delivery_tasks_for(
            store@.confirmed_emails(),
            issue_id,
        ));
        lemma_confirmed_snapshot_distinct(store@.subscribers);
    }
}

/// The whole outbox step: stages the issue and its per-subscriber delivery
/// tasks on the open transaction and returns the fresh issue id.
pub fn enqueue(
    store: &mut Store,
    txn: &mut Transaction,
    title: &str,
    text_content: &str,
    html_content: &str,
    now: i64,
) -> (r: u64)
    requires
        old(store)@.wf(),
        old(txn).valid_for(old(store)@),
        old(txn).staged_issue_model() is None,
        old(store)@.next_issue_id < u64::MAX,
    ensures
        final(store)@.wf(),
        r == old(store)@.next_issue_id,
        final(store)@ == (StoreModel {
            next_issue_id: (old(store)@.next_issue_id + 1) as u64,
            ..old(store)@
        }),
        final(txn).user_id == old(txn).user_id,
        final(txn).key == old(txn).key,
        final(txn).staged_issue_model() == Some(
            IssueModel {
                issue_id: r,
                title: title@,
                text_content: text_content@,
                html_content: html_content@,
                published_at: now,
            },
        ),
        final(txn).staged_tasks_model() == delivery_tasks_for(old(store)@.confirmed_emails(), r),
        final(txn).valid_for(final(store)@),
{
    let issue_id = insert_newsletter_issue(store, txn, title, text_content, html_content, now);
    enqueue_delivery_tasks(store, txn, issue_id);
    issue_id
}

} // verus!
