//! The delivery worker's claim-and-dispatch step.
//!
//! A worker claims one pending task at a time — a claimed task is invisible
//! to other claimants until it is resolved, which is what lets several
//! worker instances drain the same queue without double-sending — then
//! dispatches the email outside this crate and resolves the claim: a
//! delivered task is deleted; a retryable failure is recorded and the task
//! requeued while its retry budget lasts; a permanent failure, or a failure
//! that exhausts the budget, discards the task so one poison row cannot
//! stall the queue.

use vstd::prelude::*;

use crate::store::{DeliveryTask, Store, StoreModel, TaskModel, lemma_task_at_index};

verus! {

/// What the email transport reported for one dispatch attempt. The
/// transport classifies failures as retryable or permanent.
pub enum DispatchOutcome {
    Delivered,
    RetryableFailure(String),
    PermanentFailure(String),
}

impl DispatchOutcome {
    /// The error text recorded on the task, if the dispatch failed.
    pub open spec fn error_model(self) -> Option<Seq<char>> {
        match self {
            DispatchOutcome::Delivered => Option::None,
            DispatchOutcome::RetryableFailure(m) => Option::Some(m@),
            DispatchOutcome::PermanentFailure(m) => Option::Some(m@),
        }
    }
}

/// How the worker resolved a claimed task.
#[derive(Clone, Copy, Debug, PartialEq, Eq, Structural)]
pub enum TaskResolution {
    /// Delivered; the task row is gone.
    Completed,
    /// Retryable failure with budget left; the attempt is recorded and the
    /// claim released, so the task is claimable again.
    Requeued,
    /// Permanent failure, or retries exhausted; the task row is gone and
    /// will never be attempted again.
    Discarded,
}

/// A claim on one queued task, held while the email is dispatched.
pub struct ClaimedTask {
    pub issue_id: u64,
    pub subscriber_email: String,
}

/// The resolution rule: success completes; a permanent failure discards;
/// a retryable failure requeues while fewer than `max_retries` attempts
/// have failed, and discards once the failure count reaches `max_retries`.
pub open spec fn resolve_decision(
    retry_count: u32,
    outcome: DispatchOutcome,
    max_retries: u32,
) -> TaskResolution {
    match outcome {
        DispatchOutcome::Delivered => TaskResolution::Completed,
        DispatchOutcome::PermanentFailure(_) => TaskResolution::Discarded,
        DispatchOutcome::RetryableFailure(_) => if retry_count + 1 < max_retries {
            TaskResolution::Requeued
        } else {
            TaskResolution::Discarded
        },
    }
}

/// The store after the `(issue_id, email)` task has been deleted.
pub open spec fn resolved_store(m: StoreModel, issue_id: u64, email: Seq<char>) -> StoreModel {
    StoreModel { delivery_queue: m.delivery_queue.remove(m.task_index(issue_id, email)), ..m }
}

/// The store after a retryable failure of the `(issue_id, email)` task has
/// been recorded: one more attempt counted, the error and its time kept,
/// the claim released.
pub open spec fn requeued_store(
    m: StoreModel,
    issue_id: u64,
    email: Seq<char>,
    now: i64,
    err: Seq<char>,
) -> StoreModel {
    let i = m.task_index(issue_id, email);
    StoreModel {
        delivery_queue: m.delivery_queue.update(
            i,
            TaskModel {
                issue_id: m.delivery_queue[i].issue_id,
                subscriber_email: m.delivery_queue[i].subscriber_email,
                retry_count: (m.delivery_queue[i].retry_count + 1) as u32,
                last_attempt_at: Option::Some(now),
                last_error: Option::Some(err),
                claimed: false,
            },
        ),
        ..m
    }
}

/// Deleting a task keeps the store well-formed and removes that task for
/// good; no other task is touched.
pub proof fn lemma_resolved_store_facts(m: StoreModel, issue_id: u64, email: Seq<char>)
    requires
        m.wf(),
        m.has_task(issue_id, email),
    ensures
        resolved_store(m, issue_id, email).wf(),
        !resolved_store(m, issue_id, email).has_task(issue_id, email),
        resolved_store(m, issue_id, email).delivery_queue.len() == m.delivery_queue.len() - 1,
{
    let i = m.task_index(issue_id, email);
    assert(0 <= i < m.delivery_queue.len() && m.delivery_queue[i].issue_id == issue_id
        && m.delivery_queue[i].subscriber_email == email);
    let post = resolved_store(m, issue_id, email);
    assert forall|a: int, b: int| 0 <= a < b < post.delivery_queue.len() implies !(
    #[trigger] post.delivery_queue[a].issue_id == #[trigger] post.delivery_queue[b].issue_id
        && post.delivery_queue[a].subscriber_email == post.delivery_queue[b].subscriber_email) by {
        let a0 = if a < i {
            a
        } else {
            a + 1
        };
        let b0 = if b < i {
            b
        } else {
            b + 1
        };
        assert(post.delivery_queue[a] == m.delivery_queue[a0]);
        assert(post.delivery_queue[b] == m.delivery_queue[b0]);
    }
    assert forall|a: int| 0 <= a < post.delivery_queue.len() implies post.has_issue(
        (#[trigger] post.delivery_queue[a]).issue_id,
    ) by {
        let a0 = if a < i {
            a
        } else {
            a + 1
        };
        assert(post.delivery_queue[a] == m.delivery_queue[a0]);
        assert(m.has_issue(m.delivery_queue[a0].issue_id));
        let w = choose|w: int|
            0 <= w < m.issues.len() && (#[trigger] m.issues[w]).issue_id
                == m.delivery_queue[a0].issue_id;
        assert(post.issues[w].issue_id == post.delivery_queue[a].issue_id);
    }
    assert forall|a: int| 0 <= a < post.tokens.len() implies post.has_subscriber(
        (#[trigger] post.tokens[a]).subscriber_id,
    ) by {
        assert(m.has_subscriber(m.tokens[a].subscriber_id));
        let w = choose|w: int|
            0 <= w < m.subscribers.len() && (#[trigger] m.subscribers[w]).id
                == m.tokens[a].subscriber_id;
        assert(post.subscribers[w].id == post.tokens[a].subscriber_id);
    }
    assert forall|a: int| 0 <= a < post.delivery_queue.len() implies !(
    #[trigger] post.delivery_queue[a].issue_id == issue_id
        && post.delivery_queue[a].subscriber_email == email) by {
        let a0 = if a < i {
            a
        } else {
            a + 1
        };
        assert(post.delivery_queue[a] == m.delivery_queue[a0]);
        if a0 != i && m.delivery_queue[a0].issue_id == issue_id
            && m.delivery_queue[a0].subscriber_email == email {
            lemma_task_at_index(m, a0, issue_id, email);
        }
    }
}

/// Recording a retryable failure keeps the store well-formed; the task
/// stays queued, unclaimed, with exactly one more failure counted.
pub proof fn lemma_requeued_store_facts(
    m: StoreModel,
    issue_id: u64,
    email: Seq<char>,
    now: i64,
    err: Seq<char>,
)
    requires
        m.wf(),
        m.has_task(issue_id, email),
        m.task_at(issue_id, email).retry_count < u32::MAX,
    ensures
        requeued_store(m, issue_id, email, now, err).wf(),
        requeued_store(m, issue_id, email, now, err).has_task(issue_id, email),
        requeued_store(m, issue_id, email, now, err).task_at(issue_id, email) == (TaskModel {
            issue_id,
            subscriber_email: email,
            retry_count: (m.task_at(issue_id, email).retry_count + 1) as u32,
            last_attempt_at: Option::Some(now),
            last_error: Option::Some(err),
            claimed: false,
        }),
        requeued_store(m, issue_id, email, now, err).delivery_queue.len()
            == m.delivery_queue.len(),
{
    let i = m.task_index(issue_id, email);
    assert(0 <= i < m.delivery_queue.len() && m.delivery_queue[i].issue_id == issue_id
        && m.delivery_queue[i].subscriber_email == email);
    let post = requeued_store(m, issue_id, email, now, err);
    assert forall|a: int, b: int| 0 <= a < b < post.delivery_queue.len() implies !(
    #[trigger] post.delivery_queue[a].issue_id == #[trigger] post.delivery_queue[b].issue_id
        && post.delivery_queue[a].subscriber_email == post.delivery_queue[b].subscriber_email) by {
        assert(post.delivery_queue[a].issue_id == m.delivery_queue[a].issue_id
            && post.delivery_queue[a].subscriber_email == m.delivery_queue[a].subscriber_email);
        assert(post.delivery_queue[b].issue_id == m.delivery_queue[b].issue_id
            && post.delivery_queue[b].subscriber_email == m.delivery_queue[b].subscriber_email);
    }
    assert forall|a: int| 0 <= a < post.delivery_queue.len() implies post.has_issue(
        (#[trigger] post.delivery_queue[a]).issue_id,
    ) by {
        assert(post.delivery_queue[a].issue_id == m.delivery_queue[a].issue_id);
        assert(m.has_issue(m.delivery_queue[a].issue_id));
        let w = choose|w: int|
            0 <= w < m.issues.len() && (#[trigger] m.issues[w]).issue_id
                == m.delivery_queue[a].issue_id;
        assert(post.issues[w].issue_id == post.delivery_queue[a].issue_id);
    }
    assert forall|a: int| 0 <= a < post.tokens.len() implies post.has_subscriber(
        (#[trigger] post.tokens[a]).subscriber_id,
    ) by {
        assert(m.has_subscriber(m.tokens[a].subscriber_id));
        let w = choose|w: int|
            0 <= w < m.subscribers.len() && (#[trigger] m.subscribers[w]).id
                == m.tokens[a].subscriber_id;
        assert(post.subscribers[w].id == post.tokens[a].subscriber_id);
    }
    lemma_task_at_index(post, i, issue_id, email);
}

fn find_task_index(store: &Store, issue_id: u64, email: &String) -> (r: Option<usize>)
    ensures
        match r {
            Some(i) => i < store.delivery_queue.len() && store@.delivery_queue[i as int].issue_id
                == issue_id && store@.delivery_queue[i as int].subscriber_email == email@,
            None => !store@.has_task(issue_id, email@),
        },
{
    let n = store.delivery_queue.len();
    let mut i: usize = 0;
    while i < n
        invariant
            n == store.delivery_queue.len(),
            i <= n,
            forall|j: int|
                0 <= j < i ==> !((#[trigger] store@.delivery_queue[j]).issue_id == issue_id
                    && store@.delivery_queue[j].subscriber_email == email@),
        decreases n - i,
    {
        let t = &store.delivery_queue[i];
        if t.issue_id == issue_id && t.subscriber_email == *email {
            return Some(i);
        }
        i = i + 1;
    }
    None
}

/// The index of the first unclaimed task at or after `i`, or -1 if every
/// task from `i` on is claimed.
pub open spec fn first_unclaimed_from(q: Seq<TaskModel>, i: int) -> int
    decreases q.len() - i,
{
    if i < 0 || i >= q.len() {
        -1
    } else if !q[i].claimed {
        i
    } else {
        first_unclaimed_from(q, i + 1)
    }
}

/// The index of the first unclaimed task, or -1 if none is claimable: the
/// claim order is insertion order.
pub open spec fn first_unclaimed(q: Seq<TaskModel>) -> int {
    first_unclaimed_from(q, 0)
}

fn find_unclaimed_index(store: &Store) -> (r: Option<usize>)
    ensures
        match r {
            Some(i) => first_unclaimed(store@.delivery_queue) == i
                && i < store.delivery_queue.len() && !store@.delivery_queue[i as int].claimed
                && forall|j: int| 0 <= j < i ==> (#[trigger] store@.delivery_queue[j]).claimed,
            None => first_unclaimed(store@.delivery_queue) == -1 && forall|j: int|
                0 <= j < store@.delivery_queue.len() ==> (
                #[trigger] store@.delivery_queue[j]).claimed,
        },
{
    let n = store.delivery_queue.len();
    let mut i: usize = 0;
    while i < n
        invariant
            n == store.delivery_queue.len(),
            i <= n,
            first_unclaimed(store@.delivery_queue) == first_unclaimed_from(
                store@.delivery_queue,
                i as int,
            ),
            forall|j: int| 0 <= j < i ==> (#[trigger] store@.delivery_queue[j]).claimed,
        decreases n - i,
    {
        if !store.delivery_queue[i].claimed {
            return Some(i);
        }
        i = i + 1;
    }
    None
}

/// One successful claim: the first unclaimed task (in insertion order) was
/// handed out and is now locked; nothing else changed.
pub open spec fn claim_witness(pre: StoreModel, post: StoreModel, c: ClaimedTask, i: int) -> bool {
    &&& 0 <= i < pre.delivery_queue.len()
    &&& !pre.delivery_queue[i].claimed
    &&& forall|j: int| 0 <= j < i ==> (#[trigger] pre.delivery_queue[j]).claimed
    &&& c.issue_id == pre.delivery_queue[i].issue_id
    &&& c.subscriber_email@ == pre.delivery_queue[i].subscriber_email
    &&& post == (StoreModel {
        delivery_queue: pre.delivery_queue.update(
            i,
            TaskModel {
                issue_id: pre.delivery_queue[i].issue_id,
                subscriber_email: pre.delivery_queue[i].subscriber_email,
                retry_count: pre.delivery_queue[i].retry_count,
                last_attempt_at: pre.delivery_queue[i].last_attempt_at,
                last_error: pre.delivery_queue[i].last_error,
                claimed: true,
            },
        ),
        ..pre
    })
}

/// Claims the first unclaimed task, locking it against other claimants
/// until it is resolved. Returns `None` when nothing is claimable, which
/// tells the worker loop to idle and back off.
pub fn claim_task(store: &mut Store) -> (r: Option<ClaimedTask>)
    requires
        old(store)@.wf(),
    ensures
        final(store)@.wf(),
        r is Some ==> claim_witness(
            old(store)@,
            final(store)@,
            r->Some_0,
            first_unclaimed(old(store)@.delivery_queue),
        ),
        r is None ==> {
            &&& final(store)@ == old(store)@
            &&& forall|j: int|
                0 <= j < old(store)@.delivery_queue.len() ==> (#[trigger] old(
                    store,
                )@.delivery_queue[j]).claimed
        },
{
    let ghost pre = old(store)@;
    let idx = find_unclaimed_index(store);
    match idx {
        None => None,
        Some(i) => {
            let t = store.delivery_queue.remove(i);
            let c = ClaimedTask {
                issue_id: t.issue_id,
                subscriber_email: t.subscriber_email.clone(),
            };
            let locked = DeliveryTask {
                issue_id: t.issue_id,
                subscriber_email: t.subscriber_email,
                retry_count: t.retry_count,
                last_attempt_at: t.last_attempt_at,
                last_error: t.last_error,
                claimed: true,
            };
            store.delivery_queue.insert(i, locked);
            proof {
                let posted = StoreModel {
                    delivery_queue: pre.delivery_queue.update(
                        i as int,
                        TaskModel {
                            issue_id: pre.delivery_queue[i as int].issue_id,
                            subscriber_email: pre.delivery_queue[i as int].subscriber_email,
                            retry_count: pre.delivery_queue[i as int].retry_count,
                            last_attempt_at: pre.delivery_queue[i as int].last_attempt_at,
                            last_error: pre.delivery_queue[i as int].last_error,
                            claimed: true,
                        },
                    ),
                    ..pre
                };
                assert(store@.delivery_queue =~= posted.delivery_queue);
                assert(store@ =~= posted);
                assert(claim_witness(pre, store@, c, i as int));
                assert forall|a: int, b: int| 0 <= a < b < store@.delivery_queue.len() implies !(
                #[trigger] store@.delivery_queue[a].issue_id
                    == #[trigger] store@.delivery_queue[b].issue_id
                    && store@.delivery_queue[a].subscriber_email
                    == store@.delivery_queue[b].subscriber_email) by {
                    assert(store@.delivery_queue[a].issue_id == pre.delivery_queue[a].issue_id
                        && store@.delivery_queue[a].subscriber_email
                        == pre.delivery_queue[a].subscriber_email);
                    assert(store@.delivery_queue[b].issue_id == pre.delivery_queue[b].issue_id
                        && store@.delivery_queue[b].subscriber_email
                        == pre.delivery_queue[b].subscriber_email);
                }
                assert forall|a: int| 0 <= a < store@.delivery_queue.len() implies store@.has_issue(
                    (#[trigger] store@.delivery_queue[a]).issue_id,
                ) by {
                    assert(store@.delivery_queue[a].issue_id == pre.delivery_queue[a].issue_id);
                    assert(pre.has_issue(pre.delivery_queue[a].issue_id));
                    let w = choose|w: int|
                        0 <= w < pre.issues.len() && (#[trigger] pre.issues[w]).issue_id
                            == pre.delivery_queue[a].issue_id;
                    assert(store@.issues[w].issue_id == store@.delivery_queue[a].issue_id);
                }
                assert forall|a: int| 0 <= a < store@.tokens.len() implies store@.has_subscriber(
                    (#[trigger] store@.tokens[a]).subscriber_id,
                ) by {
                    assert(pre.has_subscriber(pre.tokens[a].subscriber_id));
                    let w = choose|w: int|
                        0 <= w < pre.subscribers.len() && (#[trigger] pre.subscribers[w]).id
                            == pre.tokens[a].subscriber_id;
                    assert(store@.subscribers[w].id == store@.tokens[a].subscriber_id);
                }
            }
            proof {
                assert(claim_witness(old(store)@, store@, c, i as int));
            }
            Some(c)
        },
    }
}

/// Two successive successful claims never hand out the same task: after
/// the first claim locks its row, that row is invisible to the second
/// claimant, and distinct queue rows carry distinct `(issue_id, email)`
/// pairs. This is what lets several worker instances drain one queue
/// without dispatching any task twice.
pub proof fn lemma_no_double_claim(
    s0: StoreModel,
    s1: StoreModel,
    s2: StoreModel,
    c1: ClaimedTask,
    c2: ClaimedTask,
    i1: int,
    i2: int,
)
    requires
        s0.wf(),
        claim_witness(s0, s1, c1, i1),
        claim_witness(s1, s2, c2, i2),
    ensures
        !(c1.issue_id == c2.issue_id && c1.subscriber_email@ == c2.subscriber_email@),
{
    assert(s1.delivery_queue[i1].claimed);
    assert(!s1.delivery_queue[i2].claimed);
    assert(i1 != i2);
    assert(s1.delivery_queue[i2].issue_id == s0.delivery_queue[i2].issue_id
        && s1.delivery_queue[i2].subscriber_email == s0.delivery_queue[i2].subscriber_email);
    if i1 < i2 {
        assert(!(s0.delivery_queue[i1].issue_id == s0.delivery_queue[i2].issue_id
            && s0.delivery_queue[i1].subscriber_email == s0.delivery_queue[i2].subscriber_email));
    } else {
        assert(!(s0.delivery_queue[i2].issue_id == s0.delivery_queue[i1].issue_id
            && s0.delivery_queue[i2].subscriber_email == s0.delivery_queue[i1].subscriber_email));
    }
}

/// A claim always hands out a task that is present in the queue; a
/// resolved task, being absent, can never be claimed or dispatched again.
pub proof fn lemma_claim_is_queued(pre: StoreModel, post: StoreModel, c: ClaimedTask, i: int)
    requires
        pre.wf(),
        claim_witness(pre, post, c, i),
    ensures
        pre.has_task(c.issue_id, c.subscriber_email@),
{
    lemma_task_at_index(pre, i, c.issue_id, c.subscriber_email@);
}

/// The retry budget rule, spelled out: a retryable failure requeues the
/// task exactly while fewer than `max_retries` attempts have failed, and
/// discards it the moment the failure count reaches `max_retries`.
pub proof fn lemma_retry_budget(retry_count: u32, outcome: DispatchOutcome, max_retries: u32)
    requires
        outcome is RetryableFailure,
    ensures
        retry_count + 1 < max_retries ==> resolve_decision(retry_count, outcome, max_retries)
            is Requeued,
        retry_count + 1 >= max_retries ==> resolve_decision(retry_count, outcome, max_retries)
            is Discarded,
{
}

/// Recorded failures add up: starting from a task that has never been
/// attempted, `n` consecutive recorded retryable failures (each below the
/// retry budget) leave the task queued with exactly `n` failures counted.
/// Together with the resolution rule this pins the task's lifetime: it is
/// discarded on the failure that brings the count to `max_retries`, and
/// deleted at once if any attempt succeeds first.
pub proof fn lemma_failure_count_accumulates(
    states: Seq<StoreModel>,
    issue_id: u64,
    email: Seq<char>,
    nows: Seq<i64>,
    errs: Seq<Seq<char>>,
    max_retries: u32,
)
    requires
        states.len() >= 1,
        nows.len() == states.len() - 1,
        errs.len() == states.len() - 1,
        states.len() - 1 < max_retries,
        states[0].wf(),
        states[0].has_task(issue_id, email),
        states[0].task_at(issue_id, email).retry_count == 0,
        forall|k: int|
            0 <= k < states.len() - 1 ==> #[trigger] states[k + 1] == requeued_store(
                states[k],
                issue_id,
                email,
                nows[k],
                errs[k],
            ),
    ensures
        states.last().wf(),
        states.last().has_task(issue_id, email),
        states.last().task_at(issue_id, email).retry_count == states.len() - 1,
    decreases states.len(),
{
    if states.len() > 1 {
        let n = states.len() - 1;
        let prefix = states.drop_last();
        lemma_failure_count_accumulates(
            prefix,
            issue_id,
            email,
            nows.drop_last(),
            errs.drop_last(),
            max_retries,
        );
        assert(prefix.last() == states[n - 1]);
        assert(states[n] == requeued_store(states[n - 1], issue_id, email, nows[n - 1], errs[n
            - 1]));
        lemma_requeued_store_facts(states[n - 1], issue_id, email, nows[n - 1], errs[n - 1]);
    }
}

/// Resolves a claimed task once the transport call has returned, applying
/// the resolution rule atomically with the release of the claim.
pub fn resolve_task(
    store: &mut Store,
    claim: ClaimedTask,
    outcome: DispatchOutcome,
    now: i64,
    max_retries: u32,
) -> (r: TaskResolution)
    requires
        old(store)@.wf(),
        old(store)@.has_task(claim.issue_id, claim.subscriber_email@),
        old(store)@.task_at(claim.issue_id, claim.subscriber_email@).claimed,
        1 <= max_retries,
    ensures
        final(store)@.wf(),
        r == resolve_decision(
            old(store)@.task_at(claim.issue_id, claim.subscriber_email@).retry_count,
            outcome,
            max_retries,
        ),
        match r {
            TaskResolution::Requeued => final(store)@ == requeued_store(
                old(store)@,
                claim.issue_id,
                claim.subscriber_email@,
                now,
                outcome.error_model()->Some_0,
            ),
            _ => {
                &&& final(store)@ == resolved_store(
                    old(store)@,
                    claim.issue_id,
                    claim.subscriber_email@,
                )
                &&& !final(store)@.has_task(claim.issue_id, claim.subscriber_email@)
            },
        },
{
    let ghost pre = old(store)@;
    let ClaimedTask { issue_id, subscriber_email } = claim;
    let i = match find_task_index(store, issue_id, &subscriber_email) {
        Some(i) => i,
        None => {
            proof {
                assert(false);
            }
            0
        },
    };
    proof {
        lemma_task_at_index(pre, i as int, issue_id, subscriber_email@);
    }
    match outcome {
        DispatchOutcome::Delivered => {
            let _ = store.delivery_queue.remove(i);
            proof {
                assert(store@.delivery_queue =~= pre.delivery_queue.remove(i as int));
                assert(store@ =~= resolved_store(pre, issue_id, subscriber_email@));
                lemma_resolved_store_facts(pre, issue_id, subscriber_email@);
            }
            TaskResolution::Completed
        },
        DispatchOutcome::PermanentFailure(_) => {
            let _ = store.delivery_queue.remove(i);
            proof {
                assert(store@.delivery_queue =~= pre.delivery_queue.remove(i as int));
                assert(store@ =~= resolved_store(pre, issue_id, subscriber_email@));
                lemma_resolved_store_facts(pre, issue_id, subscriber_email@);
            }
            TaskResolution::Discarded
        },
        DispatchOutcome::RetryableFailure(message) => {
            let rc = store.delivery_queue[i].retry_count;
            if rc >= max_retries - 1 {
                let _ = store.delivery_queue.remove(i);
                proof {
                    assert(store@.delivery_queue =~= pre.delivery_queue.remove(i as int));
                    assert(store@ =~= resolved_store(pre, issue_id, subscriber_email@));
                    lemma_resolved_store_facts(pre, issue_id, subscriber_email@);
                }
                TaskResolution::Discarded
            } else {
                let t = store.delivery_queue.remove(i);
                let updated = DeliveryTask {
                    issue_id: t.issue_id,
                    subscriber_email: t.subscriber_email,
                    retry_count: rc + 1,
                    last_attempt_at: Some(now),
                    last_error: Some(message),
                    claimed: false,
                };
                store.delivery_queue.insert(i, updated);
                proof {
                    let posted = requeued_store(
                        pre,
                        issue_id,
                        subscriber_email@,
                        now,
                        outcome.error_model()->Some_0,
                    );
                    assert(store@.delivery_queue =~= posted.delivery_queue);
                    assert(store@ =~= posted);
                    lemma_requeued_store_facts(
                        pre,
                        issue_id,
                        subscriber_email@,
                        now,
                        outcome.error_model()->Some_0,
                    );
                }
                TaskResolution::Requeued
            }
        },
    }
}

} // verus!
