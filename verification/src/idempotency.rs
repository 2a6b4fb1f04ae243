//! The reservation/replay protocol that makes publishing idempotent.
//!
//! For a fixed `(user_id, key)` the ledger row moves through two phases:
//! a placeholder is inserted (the reservation) when the first request
//! starts, and the row is completed with the response when that request's
//! side effects commit. A duplicate request that arrives while the row is
//! still a placeholder is told to retry later; one that arrives after
//! completion replays the saved response. The uniqueness of `(user_id, key)`
//! rows is what guarantees that exactly one caller ever starts processing.
//!
//! Side effects performed between reservation and completion are staged on
//! the [`Transaction`] value and reach the store only at [`complete`]; on
//! [`rollback`] they are discarded together with the reservation, so either
//! all of them persist or none do.

use vstd::prelude::*;

use crate::key::IdempotencyKey;
use crate::response::{HttpResponseDescriptor, ResponseModel};
use crate::store::{
    DeliveryTask, IdempotencyRecord, IdempotencyState, IssueModel, NewsletterIssue, RecordModel,
    RecordStateModel, Store, StoreModel, TaskModel, lemma_record_at_index, lemma_references_transfer,
};

verus! {

/// A duplicate request observed the placeholder-without-response state: the
/// original request is still in flight, and the caller should retry shortly.
#[derive(Clone, Copy, Debug, PartialEq, Eq, Structural)]
pub enum IdempotencyError {
    ConflictRetryLater,
}

/// An open transaction holding the reservation for `(user_id, key)` and the
/// side effects staged since. It must be released through [`complete`] or
/// [`rollback`] on every exit path.
pub struct Transaction {
    pub user_id: u64,
    pub key: String,
    pub staged_issue: Option<NewsletterIssue>,
    pub staged_tasks: Vec<DeliveryTask>,
}

impl Transaction {
    pub open spec fn staged_issue_model(self) -> Option<IssueModel> {
        match self.staged_issue {
            Option::Some(ref iss) => Option::Some(iss@),
            Option::None => Option::None,
        }
    }

    pub open spec fn staged_tasks_model(self) -> Seq<TaskModel> {
        self.staged_tasks@.map_values(|t: DeliveryTask| t@)
    }

    /// The transaction is open against `m`: its reservation row is still a
    /// placeholder, and its staged work does not collide with anything
    /// already committed.
    pub open spec fn valid_for(self, m: StoreModel) -> bool {
        &&& m.has_record(self.user_id, self.key@)
        &&& m.record_state(self.user_id, self.key@) is Pending
        &&& match self.staged_issue_model() {
            Option::Some(iss) => {
                &&& iss.issue_id < m.next_issue_id
                &&& !m.has_issue(iss.issue_id)
                &&& forall|i: int|
                    0 <= i < self.staged_tasks_model().len() ==> {
                        &&& (#[trigger] self.staged_tasks_model()[i]).issue_id == iss.issue_id
                        &&& self.staged_tasks_model()[i].retry_count == 0
                        &&& self.staged_tasks_model()[i].claimed == false
                    }
                &&& forall|i: int, j: int|
                    0 <= i < j < self.staged_tasks_model().len() ==> (
                    #[trigger] self.staged_tasks_model()[i]).subscriber_email != (
                    #[trigger] self.staged_tasks_model()[j]).subscriber_email
            },
            Option::None => self.staged_tasks_model().len() == 0,
        }
    }
}

/// What [`begin_or_replay`] must do, as a function of the pre-state alone:
/// start processing when no row exists, replay the saved response when one
/// is completed, and signal a conflict while one is still in flight.
pub ghost enum BeginDecision {
    Starts,
    Replays(ResponseModel),
    Conflicts,
}

pub open spec fn begin_decision(m: StoreModel, user_id: u64, key: Seq<char>) -> BeginDecision {
    if !m.has_record(user_id, key) {
        BeginDecision::Starts
    } else {
        match m.record_state(user_id, key) {
            RecordStateModel::Pending => BeginDecision::Conflicts,
            RecordStateModel::Completed(resp) => BeginDecision::Replays(resp),
        }
    }
}

/// The store after a reservation for `(user_id, key)` has been inserted.
pub open spec fn reserved_store(m: StoreModel, user_id: u64, key: Seq<char>, now: i64) -> StoreModel {
    StoreModel {
        idempotency: m.idempotency.push(
            RecordModel { user_id, key, state: RecordStateModel::Pending, created_at: now },
        ),
        ..m
    }
}

/// The two continuations of a request: run the side effects on the open
/// transaction, or hand back the response saved by an earlier run.
pub enum NextAction {
    StartProcessing(Transaction),
    ReturnSavedResponse(HttpResponseDescriptor),
}

fn find_record_index(store: &Store, user_id: u64, key: &String) -> (r: Option<usize>)
    ensures
        match r {
            Some(i) => i < store.idempotency.len() && store@.idempotency[i as int].user_id
                == user_id && store@.idempotency[i as int].key == key@,
            None => !store@.has_record(user_id, key@),
        },
{
    let n = store.idempotency.len();
    let mut i: usize = 0;
    while i < n
        invariant
            n == store.idempotency.len(),
            i <= n,
            forall|j: int|
                0 <= j < i ==> !((#[trigger] store@.idempotency[j]).user_id == user_id
                    && store@.idempotency[j].key == key@),
        decreases n - i,
    {
        let rec = &store.idempotency[i];
        if rec.user_id == user_id && rec.key == *key {
            return Some(i);
        }
        i = i + 1;
    }
    None
}

/// Opens the `(user_id, key)` slot: inserts the placeholder reservation if
/// no row exists, replays the saved response if a completed row exists, and
/// reports a conflict if a placeholder from a still-running request exists.
pub fn begin_or_replay(store: &mut Store, user_id: u64, key: &IdempotencyKey, now: i64) -> (r:
    Result<NextAction, IdempotencyError>)
    requires
        old(store)@.wf(),
    ensures
        final(store)@.wf(),
        match (begin_decision(old(store)@, user_id, key@), r) {
            (BeginDecision::Starts, Ok(NextAction::StartProcessing(t))) => {
                &&& t.user_id == user_id
                &&& t.key@ == key@
                &&& t.staged_issue_model() is None
                &&& t.staged_tasks_model() == Seq::<TaskModel>::empty()
                &&& final(store)@ == reserved_store(old(store)@, user_id, key@, now)
                &&& t.valid_for(final(store)@)
            },
            (BeginDecision::Replays(resp), Ok(NextAction::ReturnSavedResponse(out))) => {
                &&& out@ == resp
                &&& final(store)@ == old(store)@
            },
            (BeginDecision::Conflicts, Err(IdempotencyError::ConflictRetryLater)) => final(store)@
                == old(store)@,
            _ => false,
        },
{
    match find_record_index(store, user_id, key.as_ref()) {
        None => {
            let rec = IdempotencyRecord {
                user_id,
                key: key.as_ref().clone(),
                state: IdempotencyState::Pending,
                created_at: now,
            };
            store.idempotency.push(rec);
            let t = Transaction {
                user_id,
                key: key.as_ref().clone(),
                staged_issue: None,
                staged_tasks: Vec::new(),
            };
            proof {
                let pre = old(store)@;
                let new_rec = RecordModel {
                    user_id,
                    key: key@,
                    state: RecordStateModel::Pending,
                    created_at: now,
                };
                assert(store@.idempotency =~= pre.idempotency.push(new_rec));
                assert(store@ =~= reserved_store(pre, user_id, key@, now));
                assert(t.staged_tasks_model() =~= Seq::<TaskModel>::empty());
                assert forall|a: int, b: int| 0 <= a < b < store@.idempotency.len() implies !(
                #[trigger] store@.idempotency[a].user_id == #[trigger] store@.idempotency[b].user_id
                    && store@.idempotency[a].key == store@.idempotency[b].key) by {
                    if b == pre.idempotency.len() {
                        // The old ledger held no row for this pair, so the
                        // pushed reservation collides with nothing.
                        assert(store@.idempotency[a] == pre.idempotency[a]);
                        if pre.idempotency[a].user_id == user_id && pre.idempotency[a].key == key@ {
                            assert(pre.has_record(user_id, key@));
                        }
                    } else {
                        assert(store@.idempotency[a] == pre.idempotency[a]);
                        assert(store@.idempotency[b] == pre.idempotency[b]);
                    }
                }
                lemma_record_at_index(
                    store@,
                    pre.idempotency.len() as int,
                    user_id,
                    key@,
                );
                lemma_references_transfer(pre, store@);
                assert(store@.wf());
            }
            Ok(NextAction::StartProcessing(t))
        },
        Some(i) => {
            proof {
                lemma_record_at_index(store@, i as int, user_id, key@);
            }
            match &store.idempotency[i].state {
                IdempotencyState::Pending => Err(IdempotencyError::ConflictRetryLater),
                IdempotencyState::Completed(saved) => Ok(
                    NextAction::ReturnSavedResponse(saved.duplicate()),
                ),
            }
        },
    }
}

/// The store after the transaction's staged work and final response have
/// been committed atomically.
pub open spec fn completed_store(
    m: StoreModel,
    user_id: u64,
    key: Seq<char>,
    staged_issue: Option<IssueModel>,
    staged_tasks: Seq<TaskModel>,
    resp: ResponseModel,
) -> StoreModel {
    let i = m.record_index(user_id, key);
    StoreModel {
        idempotency: m.idempotency.update(
            i,
            RecordModel {
                user_id: m.idempotency[i].user_id,
                key: m.idempotency[i].key,
                state: RecordStateModel::Completed(resp),
                created_at: m.idempotency[i].created_at,
            },
        ),
        issues: m.issues + (match staged_issue {
            Option::Some(iss) => seq![iss],
            Option::None => Seq::empty(),
        }),
        delivery_queue: m.delivery_queue + staged_tasks,
        ..m
    }
}

/// Fills the transaction's reservation with the final response and commits
/// it together with all staged side effects; returns the now-durable
/// response.
pub fn complete(store: &mut Store, txn: Transaction, response: HttpResponseDescriptor) -> (r:
    HttpResponseDescriptor)
    requires
        old(store)@.wf(),
        txn.valid_for(old(store)@),
    ensures
        final(store)@.wf(),
        r@ == response@,
        final(store)@ == completed_store(
            old(store)@,
            txn.user_id,
            txn.key@,
            txn.staged_issue_model(),
            txn.staged_tasks_model(),
            response@,
        ),
{
    let ghost pre = old(store)@;
    let Transaction { user_id, key, staged_issue, mut staged_tasks } = txn;
    let i = match find_record_index(store, user_id, &key) {
        Some(i) => i,
        None => {
            proof {
                assert(false);
            }
            0
        },
    };
    proof {
        lemma_record_at_index(pre, i as int, user_id, key@);
    }
    let out = response.duplicate();
    let old_rec = store.idempotency.remove(i);
    let new_rec = IdempotencyRecord {
        user_id: old_rec.user_id,
        key: old_rec.key,
        state: IdempotencyState::Completed(response),
        created_at: old_rec.created_at,
    };
    store.idempotency.insert(i, new_rec);
    match staged_issue {
        Some(iss) => store.issues.push(iss),
        None => (),
    }
    store.delivery_queue.append(&mut staged_tasks);
    proof {
        let post = completed_store(
            pre,
            user_id,
            key@,
            txn.staged_issue_model(),
            txn.staged_tasks_model(),
            response@,
        );
        assert(store@.idempotency =~= post.idempotency);
        assert(store@.issues =~= post.issues);
        assert(store@.delivery_queue =~= post.delivery_queue);
        assert(store@ =~= post);
        lemma_completed_store_wf(pre, txn, response@);
    }
    out
}

/// Committing a valid transaction preserves well-formedness: the staged
/// issue is fresh, its tasks reference it and only it, and nothing else in
/// the store changes identity.
proof fn lemma_completed_store_wf(m: StoreModel, txn: Transaction, resp: ResponseModel)
    requires
        m.wf(),
        txn.valid_for(m),
    ensures
        completed_store(
            m,
            txn.user_id,
            txn.key@,
            txn.staged_issue_model(),
            txn.staged_tasks_model(),
            resp,
        ).wf(),
{
    let post = completed_store(
        m,
        txn.user_id,
        txn.key@,
        txn.staged_issue_model(),
        txn.staged_tasks_model(),
        resp,
    );
    let i = m.record_index(txn.user_id, txn.key@);
    assert forall|a: int, b: int| 0 <= a < b < post.idempotency.len() implies !(
    #[trigger] post.idempotency[a].user_id == #[trigger] post.idempotency[b].user_id
        && post.idempotency[a].key == post.idempotency[b].key) by {
        assert(post.idempotency[a].user_id == m.idempotency[a].user_id && post.idempotency[a].key
            == m.idempotency[a].key);
        assert(post.idempotency[b].user_id == m.idempotency[b].user_id && post.idempotency[b].key
            == m.idempotency[b].key);
    }
    assert forall|a: int| 0 <= a < post.issues.len() implies (#[trigger] post.issues[a].issue_id)
        < post.next_issue_id by {
        if a < m.issues.len() {
            assert(post.issues[a] == m.issues[a]);
        }
    }
    assert forall|a: int, b: int| 0 <= a < b < post.issues.len() implies (
    #[trigger] post.issues[a].issue_id) != (#[trigger] post.issues[b].issue_id) by {
        if b < m.issues.len() {
            assert(post.issues[a] == m.issues[a] && post.issues[b] == m.issues[b]);
        } else {
            // `b` is the staged issue, which no committed issue's id matches.
            if a < m.issues.len() {
                assert(m.issues[a].issue_id == post.issues[a].issue_id);
                assert(!m.has_issue(post.issues[b].issue_id));
            }
        }
    }
    assert forall|a: int, b: int| 0 <= a < b < post.delivery_queue.len() implies !(
    #[trigger] post.delivery_queue[a].issue_id == #[trigger] post.delivery_queue[b].issue_id
        && post.delivery_queue[a].subscriber_email == post.delivery_queue[b].subscriber_email) by {
        let nq = m.delivery_queue.len() as int;
        if b < nq {
        } else if a < nq {
            // Old tasks reference committed issues; staged tasks reference
            // the fresh issue, so the ids differ.
            assert(m.has_issue(m.delivery_queue[a].issue_id));
            let iss = txn.staged_issue_model()->Some_0;
            assert(post.delivery_queue[b] == txn.staged_tasks_model()[b - nq]);
            assert(post.delivery_queue[b].issue_id == iss.issue_id);
            assert(!m.has_issue(iss.issue_id));
        } else {
            assert(post.delivery_queue[a] == txn.staged_tasks_model()[a - nq]);
            assert(post.delivery_queue[b] == txn.staged_tasks_model()[b - nq]);
        }
    }
    assert forall|a: int| 0 <= a < post.delivery_queue.len() implies post.has_issue(
        (#[trigger] post.delivery_queue[a]).issue_id,
    ) by {
        let nq = m.delivery_queue.len() as int;
        if a < nq {
            assert(m.has_issue(m.delivery_queue[a].issue_id));
            let w = choose|w: int|
                0 <= w < m.issues.len() && (#[trigger] m.issues[w]).issue_id
                    == m.delivery_queue[a].issue_id;
            assert(post.issues[w].issue_id == post.delivery_queue[a].issue_id);
        } else {
            let iss = txn.staged_issue_model()->Some_0;
            assert(post.delivery_queue[a] == txn.staged_tasks_model()[a - nq]);
            assert(post.issues[m.issues.len() as int] == iss);
        }
    }
}

/// Exactly one of any number of concurrent callers for the same
/// `(user_id, key)` starts processing: the winner's reservation makes
/// every duplicate that arrives before the commit observe a conflict, so
/// none of them proceeds to the side effects.
pub proof fn lemma_one_start_winner(m: StoreModel, user_id: u64, key: Seq<char>, now: i64)
    requires
        m.wf(),
        !m.has_record(user_id, key),
    ensures
        begin_decision(m, user_id, key) is Starts,
        begin_decision(reserved_store(m, user_id, key, now), user_id, key) is Conflicts,
{
    let m2 = reserved_store(m, user_id, key, now);
    let rec = RecordModel { user_id, key, state: RecordStateModel::Pending, created_at: now };
    crate::store::lemma_pushed_record_unique(m, m2, rec);
    lemma_record_at_index(m2, m.idempotency.len() as int, user_id, key);
}

/// Once the winner's transaction has committed, the ledger row holds the
/// winner's response, and every later duplicate replays exactly it.
pub proof fn lemma_completed_row_replays(
    m: StoreModel,
    user_id: u64,
    key: Seq<char>,
    staged_issue: Option<IssueModel>,
    staged_tasks: Seq<TaskModel>,
    resp: ResponseModel,
)
    requires
        m.wf(),
        m.has_record(user_id, key),
    ensures
        begin_decision(
            completed_store(m, user_id, key, staged_issue, staged_tasks, resp),
            user_id,
            key,
        ) == BeginDecision::Replays(resp),
{
    let i = m.record_index(user_id, key);
    assert(0 <= i < m.idempotency.len() && m.idempotency[i].user_id == user_id
        && m.idempotency[i].key == key);
    let m2 = completed_store(m, user_id, key, staged_issue, staged_tasks, resp);
    assert forall|a: int, b: int| 0 <= a < b < m2.idempotency.len() implies !(
    #[trigger] m2.idempotency[a].user_id == #[trigger] m2.idempotency[b].user_id
        && m2.idempotency[a].key == m2.idempotency[b].key) by {
        assert(m2.idempotency[a].user_id == m.idempotency[a].user_id && m2.idempotency[a].key
            == m.idempotency[a].key);
        assert(m2.idempotency[b].user_id == m.idempotency[b].user_id && m2.idempotency[b].key
            == m.idempotency[b].key);
    }
    lemma_record_at_index(m2, i, user_id, key);
}

/// Discards the transaction: removes the reservation and everything staged,
/// leaving the key unconsumed so that a later request can start afresh.
pub fn rollback(store: &mut Store, txn: Transaction)
    requires
        old(store)@.wf(),
        txn.valid_for(old(store)@),
    ensures
        final(store)@.wf(),
        final(store)@ == (StoreModel {
            idempotency: old(store)@.idempotency.remove(
                old(store)@.record_index(txn.user_id, txn.key@),
            ),
            ..old(store)@
        }),
        !final(store)@.has_record(txn.user_id, txn.key@),
{
    let ghost pre = old(store)@;
    let Transaction { user_id, key, staged_issue: _, staged_tasks: _ } = txn;
    let i = match find_record_index(store, user_id, &key) {
        Some(i) => i,
        None => {
            proof {
                assert(false);
            }
            0
        },
    };
    proof {
        lemma_record_at_index(pre, i as int, user_id, key@);
    }
    let _ = store.idempotency.remove(i);
    proof {
        assert(store@.idempotency =~= pre.idempotency.remove(i as int));
        assert(store@ =~= StoreModel {
            idempotency: pre.idempotency.remove(pre.record_index(user_id, key@)),
            ..pre
        });
        assert forall|a: int, b: int| 0 <= a < b < store@.idempotency.len() implies !(
        #[trigger] store@.idempotency[a].user_id == #[trigger] store@.idempotency[b].user_id
            && store@.idempotency[a].key == store@.idempotency[b].key) by {
            let a0 = if a < i as int {
                a
            } else {
                a + 1
            };
            let b0 = if b < i as int {
                b
            } else {
                b + 1
            };
            assert(store@.idempotency[a] == pre.idempotency[a0]);
            assert(store@.idempotency[b] == pre.idempotency[b0]);
        }
        assert forall|a: int| 0 <= a < store@.delivery_queue.len() implies store@.has_issue(
            (#[trigger] store@.delivery_queue[a]).issue_id,
        ) by {
            assert(pre.has_issue(pre.delivery_queue[a].issue_id));
            let w = choose|w: int|
                0 <= w < pre.issues.len() && (#[trigger] pre.issues[w]).issue_id
                    == pre.delivery_queue[a].issue_id;
            assert(store@.issues[w].issue_id == store@.delivery_queue[a].issue_id);
        }
        assert forall|a: int| 0 <= a < store@.idempotency.len() implies !(
        #[trigger] store@.idempotency[a].user_id == user_id && store@.idempotency[a].key
            == key@) by {
            let a0 = if a < i as int {
                a
            } else {
                a + 1
            };
            assert(store@.idempotency[a] == pre.idempotency[a0]);
            if a0 != i as int && pre.idempotency[a0].user_id == user_id && pre.idempotency[a0].key
                == key@ {
                lemma_record_at_index(pre, a0, user_id, key@);
            }
        }
    }
}

} // verus!
