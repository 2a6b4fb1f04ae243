//! The persistent state of the newsletter service, modeled in memory.
//!
//! Four tables back the pipeline: subscriptions (with confirmation tokens),
//! the idempotency ledger keyed by `(user_id, key)`, published newsletter
//! issues, and the delivery queue holding one task per pending email. A
//! row's presence in the delivery queue is the sole source of truth for
//! "email not yet sent": there is no status column, deletion is resolution.
//!
//! Every operation requires and preserves [`StoreModel::wf`]: uniqueness of
//! the `(user_id, key)` pairs, of issue ids, of `(issue_id, email)` task
//! pairs, of subscriber ids and emails and of tokens, and referential
//! integrity from tasks to issues and from tokens to subscribers.

use vstd::prelude::*;

use crate::response::{HttpResponseDescriptor, ResponseModel};

verus! {

/// Whether a subscriber has confirmed the subscription. Only confirmed
/// subscribers receive newsletters.
#[derive(Clone, Copy, Debug, PartialEq, Eq, Structural)]
pub enum SubscriptionStatus {
    PendingConfirmation,
    Confirmed,
}

/// A subscription row.
pub struct Subscriber {
    pub id: u64,
    pub email: String,
    pub name: String,
    pub status: SubscriptionStatus,
    pub subscribed_at: i64,
}

/// A confirmation token handed out to a pending subscriber.
pub struct SubscriptionToken {
    pub token: String,
    pub subscriber_id: u64,
}

/// The two-phase state of an idempotency row: reserved while the first
/// request is in flight, completed once its response has been committed.
pub enum IdempotencyState {
    Pending,
    Completed(HttpResponseDescriptor),
}

/// One row of the idempotency ledger, identified by `(user_id, key)`.
pub struct IdempotencyRecord {
    pub user_id: u64,
    pub key: String,
    pub state: IdempotencyState,
    pub created_at: i64,
}

/// A published newsletter issue. Immutable after creation.
pub struct NewsletterIssue {
    pub issue_id: u64,
    pub title: String,
    pub text_content: String,
    pub html_content: String,
    pub published_at: i64,
}

/// One queued delivery, identified by `(issue_id, subscriber_email)`.
/// `claimed` models the row-level lock a worker holds while dispatching.
pub struct DeliveryTask {
    pub issue_id: u64,
    pub subscriber_email: String,
    pub retry_count: u32,
    pub last_attempt_at: Option<i64>,
    pub last_error: Option<String>,
    pub claimed: bool,
}

// ---------------------------------------------------------------------------
// Ghost models
// ---------------------------------------------------------------------------

#[verifier::ext_equal]
pub ghost struct SubscriberModel {
    pub id: u64,
    pub email: Seq<char>,
    pub name: Seq<char>,
    pub status: SubscriptionStatus,
    pub subscribed_at: i64,
}

#[verifier::ext_equal]
pub ghost struct TokenModel {
    pub token: Seq<char>,
    pub subscriber_id: u64,
}

#[verifier::ext_equal]
pub ghost enum RecordStateModel {
    Pending,
    Completed(ResponseModel),
}

#[verifier::ext_equal]
pub ghost struct RecordModel {
    pub user_id: u64,
    pub key: Seq<char>,
    pub state: RecordStateModel,
    pub created_at: i64,
}

#[verifier::ext_equal]
pub ghost struct IssueModel {
    pub issue_id: u64,
    pub title: Seq<char>,
    pub text_content: Seq<char>,
    pub html_content: Seq<char>,
    pub published_at: i64,
}

#[verifier::ext_equal]
pub ghost struct TaskModel {
    pub issue_id: u64,
    pub subscriber_email: Seq<char>,
    pub retry_count: u32,
    pub last_attempt_at: Option<i64>,
    pub last_error: Option<Seq<char>>,
    pub claimed: bool,
}

impl View for Subscriber {
    type V = SubscriberModel;

    open spec fn view(&self) -> SubscriberModel {
        SubscriberModel {
            id: self.id,
            email: self.email@,
            name: self.name@,
            status: self.status,
            subscribed_at: self.subscribed_at,
        }
    }
}

impl View for SubscriptionToken {
    type V = TokenModel;

    open spec fn view(&self) -> TokenModel {
        TokenModel { token: self.token@, subscriber_id: self.subscriber_id }
    }
}

impl View for IdempotencyRecord {
    type V = RecordModel;

    open spec fn view(&self) -> RecordModel {
        RecordModel {
            user_id: self.user_id,
            key: self.key@,
            state: match self.state {
                IdempotencyState::Pending => RecordStateModel::Pending,
                IdempotencyState::Completed(ref r) => RecordStateModel::Completed(r@),
            },
            created_at: self.created_at,
        }
    }
}

impl View for NewsletterIssue {
    type V = IssueModel;

    open spec fn view(&self) -> IssueModel {
        IssueModel {
            issue_id: self.issue_id,
            title: self.title@,
            text_content: self.text_content@,
            html_content: self.html_content@,
            published_at: self.published_at,
        }
    }
}

impl View for DeliveryTask {
    type V = TaskModel;

    open spec fn view(&self) -> TaskModel {
        TaskModel {
            issue_id: self.issue_id,
            subscriber_email: self.subscriber_email@,
            retry_count: self.retry_count,
            last_attempt_at: self.last_attempt_at,
            last_error: match self.last_error {
                Option::Some(ref e) => Option::Some(e@),
                Option::None => Option::None,
            },
            claimed: self.claimed,
        }
    }
}

/// The mathematical content of the whole store.
#[verifier::ext_equal]
pub ghost struct StoreModel {
    pub idempotency: Seq<RecordModel>,
    pub issues: Seq<IssueModel>,
    pub delivery_queue: Seq<TaskModel>,
    pub subscribers: Seq<SubscriberModel>,
    pub tokens: Seq<TokenModel>,
    pub next_issue_id: u64,
    pub next_subscriber_id: u64,
}

impl StoreModel {
    /// Exactly one idempotency row may exist per `(user_id, key)`; this is
    /// the uniqueness constraint the reservation protocol relies on.
    pub open spec fn idempotency_unique(self) -> bool {
        forall|i: int, j: int|
            0 <= i < j < self.idempotency.len() ==> !(#[trigger] self.idempotency[i].user_id
                == #[trigger] self.idempotency[j].user_id && self.idempotency[i].key
                == self.idempotency[j].key)
    }

    pub open spec fn issues_unique(self) -> bool {
        forall|i: int, j: int|
            0 <= i < j < self.issues.len() ==> (#[trigger] self.issues[i].issue_id)
                != (#[trigger] self.issues[j].issue_id)
    }

    pub open spec fn issue_ids_bounded(self) -> bool {
        forall|i: int|
            0 <= i < self.issues.len() ==> (#[trigger] self.issues[i].issue_id)
                < self.next_issue_id
    }

    pub open spec fn delivery_queue_unique(self) -> bool {
        forall|i: int, j: int|
            0 <= i < j < self.delivery_queue.len() ==> !(#[trigger] self.delivery_queue[i].issue_id
                == #[trigger] self.delivery_queue[j].issue_id
                && self.delivery_queue[i].subscriber_email
                == self.delivery_queue[j].subscriber_email)
    }

    pub open spec fn tasks_reference_issues(self) -> bool {
        forall|i: int|
            0 <= i < self.delivery_queue.len() ==> self.has_issue(
                (#[trigger] self.delivery_queue[i]).issue_id,
            )
    }

    pub open spec fn subscribers_unique(self) -> bool {
        forall|i: int, j: int|
            0 <= i < j < self.subscribers.len() ==> (#[trigger] self.subscribers[i]).id
                != (#[trigger] self.subscribers[j]).id && self.subscribers[i].email
                != self.subscribers[j].email
    }

    pub open spec fn subscriber_ids_bounded(self) -> bool {
        forall|i: int|
            0 <= i < self.subscribers.len() ==> (#[trigger] self.subscribers[i].id)
                < self.next_subscriber_id
    }

    pub open spec fn tokens_unique(self) -> bool {
        forall|i: int, j: int|
            0 <= i < j < self.tokens.len() ==> (#[trigger] self.tokens[i].token)
                != (#[trigger] self.tokens[j].token)
    }

    pub open spec fn tokens_reference_subscribers(self) -> bool {
        forall|i: int|
            0 <= i < self.tokens.len() ==> self.has_subscriber(
                (#[trigger] self.tokens[i]).subscriber_id,
            )
    }

    /// Well-formedness of the whole store.
    pub open spec fn wf(self) -> bool {
        &&& self.idempotency_unique()
        &&& self.issues_unique()
        &&& self.issue_ids_bounded()
        &&& self.delivery_queue_unique()
        &&& self.tasks_reference_issues()
        &&& self.subscribers_unique()
        &&& self.subscriber_ids_bounded()
        &&& self.tokens_unique()
        &&& self.tokens_reference_subscribers()
    }

    // -- idempotency ledger accessors --

    pub open spec fn has_record(self, user_id: u64, key: Seq<char>) -> bool {
        exists|i: int|
            0 <= i < self.idempotency.len() && (#[trigger] self.idempotency[i]).user_id == user_id
                && self.idempotency[i].key == key
    }

    /// The index of the `(user_id, key)` row; meaningful only under
    /// `has_record` and `idempotency_unique`.
    pub open spec fn record_index(self, user_id: u64, key: Seq<char>) -> int {
        choose|i: int|
            0 <= i < self.idempotency.len() && (#[trigger] self.idempotency[i]).user_id == user_id
                && self.idempotency[i].key == key
    }

    pub open spec fn record_at(self, user_id: u64, key: Seq<char>) -> RecordModel {
        self.idempotency[self.record_index(user_id, key)]
    }

    pub open spec fn record_state(self, user_id: u64, key: Seq<char>) -> RecordStateModel {
        self.record_at(user_id, key).state
    }

    // -- issue accessors --

    pub open spec fn has_issue(self, issue_id: u64) -> bool {
        exists|i: int|
            0 <= i < self.issues.len() && (#[trigger] self.issues[i]).issue_id == issue_id
    }

    pub open spec fn issue_at(self, issue_id: u64) -> IssueModel {
        self.issues[choose|i: int|
            0 <= i < self.issues.len() && (#[trigger] self.issues[i]).issue_id == issue_id]
    }

    // -- delivery queue accessors --

    pub open spec fn has_task(self, issue_id: u64, email: Seq<char>) -> bool {
        exists|i: int|
            0 <= i < self.delivery_queue.len() && (#[trigger] self.delivery_queue[i]).issue_id
                == issue_id && self.delivery_queue[i].subscriber_email == email
    }

    /// The index of the `(issue_id, email)` task; meaningful only under
    /// `has_task` and `delivery_queue_unique`.
    pub open spec fn task_index(self, issue_id: u64, email: Seq<char>) -> int {
        choose|i: int|
            0 <= i < self.delivery_queue.len() && (#[trigger] self.delivery_queue[i]).issue_id
                == issue_id && self.delivery_queue[i].subscriber_email == email
    }

    pub open spec fn task_at(self, issue_id: u64, email: Seq<char>) -> TaskModel {
        self.delivery_queue[self.task_index(issue_id, email)]
    }

    // -- subscription accessors --

    pub open spec fn has_subscriber(self, id: u64) -> bool {
        exists|i: int|
            0 <= i < self.subscribers.len() && (#[trigger] self.subscribers[i]).id == id
    }

    /// The index of the subscriber with `id`; meaningful only under
    /// `has_subscriber` and `subscribers_unique`.
    pub open spec fn subscriber_index(self, id: u64) -> int {
        choose|i: int|
            0 <= i < self.subscribers.len() && (#[trigger] self.subscribers[i]).id == id
    }

    pub open spec fn subscriber_at(self, id: u64) -> SubscriberModel {
        self.subscribers[self.subscriber_index(id)]
    }

    pub open spec fn has_subscriber_email(self, email: Seq<char>) -> bool {
        exists|i: int|
            0 <= i < self.subscribers.len() && (#[trigger] self.subscribers[i]).email == email
    }

    pub open spec fn has_token(self, token: Seq<char>) -> bool {
        exists|i: int| 0 <= i < self.tokens.len() && (#[trigger] self.tokens[i]).token == token
    }

    pub open spec fn token_at(self, token: Seq<char>) -> TokenModel {
        self.tokens[choose|i: int|
            0 <= i < self.tokens.len() && (#[trigger] self.tokens[i]).token == token]
    }

    /// The emails of the currently confirmed subscribers, in insertion
    /// order: the snapshot the outbox step enqueues delivery tasks for.
    pub open spec fn confirmed_emails(self) -> Seq<Seq<char>> {
        emails_of(confirmed_of(self.subscribers))
    }
}

/// The confirmed subscribers among `subs`, in order.
pub open spec fn confirmed_of(subs: Seq<SubscriberModel>) -> Seq<SubscriberModel> {
    subs.filter(|s: SubscriberModel| s.status is Confirmed)
}

/// The emails of `subs`, in order.
pub open spec fn emails_of(subs: Seq<SubscriberModel>) -> Seq<Seq<char>> {
    subs.map_values(|s: SubscriberModel| s.email)
}

/// Pins `record_at` to a concrete index: in a ledger with unique keys, the
/// row found at `i` is the row the accessors speak of.
pub proof fn lemma_record_at_index(m: StoreModel, i: int, user_id: u64, key: Seq<char>)
    requires
        m.idempotency_unique(),
        0 <= i < m.idempotency.len(),
        m.idempotency[i].user_id == user_id,
        m.idempotency[i].key == key,
    ensures
        m.has_record(user_id, key),
        m.record_index(user_id, key) == i,
        m.record_at(user_id, key) == m.idempotency[i],
{
    let j = choose|j: int|
        0 <= j < m.idempotency.len() && (#[trigger] m.idempotency[j]).user_id == user_id
            && m.idempotency[j].key == key;
    if i < j {
        assert(!(m.idempotency[i].user_id == m.idempotency[j].user_id && m.idempotency[i].key
            == m.idempotency[j].key));
    } else if j < i {
        assert(!(m.idempotency[j].user_id == m.idempotency[i].user_id && m.idempotency[j].key
            == m.idempotency[i].key));
    }
}

/// Pins `issue_at` to a concrete index.
pub proof fn lemma_issue_at_index(m: StoreModel, i: int, issue_id: u64)
    requires
        m.issues_unique(),
        0 <= i < m.issues.len(),
        m.issues[i].issue_id == issue_id,
    ensures
        m.has_issue(issue_id),
        m.issue_at(issue_id) == m.issues[i],
{
    let j = choose|j: int|
        0 <= j < m.issues.len() && (#[trigger] m.issues[j]).issue_id == issue_id;
    if i < j {
        assert(m.issues[i].issue_id != m.issues[j].issue_id);
    } else if j < i {
        assert(m.issues[j].issue_id != m.issues[i].issue_id);
    }
}

/// Pins `task_at` to a concrete index.
pub proof fn lemma_task_at_index(m: StoreModel, i: int, issue_id: u64, email: Seq<char>)
    requires
        m.delivery_queue_unique(),
        0 <= i < m.delivery_queue.len(),
        m.delivery_queue[i].issue_id == issue_id,
        m.delivery_queue[i].subscriber_email == email,
    ensures
        m.has_task(issue_id, email),
        m.task_index(issue_id, email) == i,
        m.task_at(issue_id, email) == m.delivery_queue[i],
{
    let j = choose|j: int|
        0 <= j < m.delivery_queue.len() && (#[trigger] m.delivery_queue[j]).issue_id == issue_id
            && m.delivery_queue[j].subscriber_email == email;
    if i < j {
        assert(!(m.delivery_queue[i].issue_id == m.delivery_queue[j].issue_id
            && m.delivery_queue[i].subscriber_email == m.delivery_queue[j].subscriber_email));
    } else if j < i {
        assert(!(m.delivery_queue[j].issue_id == m.delivery_queue[i].issue_id
            && m.delivery_queue[j].subscriber_email == m.delivery_queue[i].subscriber_email));
    }
}

/// Pins `subscriber_at` to a concrete index.
pub proof fn lemma_subscriber_at_index(m: StoreModel, i: int, id: u64)
    requires
        m.subscribers_unique(),
        0 <= i < m.subscribers.len(),
        m.subscribers[i].id == id,
    ensures
        m.has_subscriber(id),
        m.subscriber_index(id) == i,
        m.subscriber_at(id) == m.subscribers[i],
{
    let j = choose|j: int| 0 <= j < m.subscribers.len() && (#[trigger] m.subscribers[j]).id == id;
    if i < j {
        assert(m.subscribers[i].id != m.subscribers[j].id);
    } else if j < i {
        assert(m.subscribers[j].id != m.subscribers[i].id);
    }
}

/// Pins `token_at` to a concrete index.
pub proof fn lemma_token_at_index(m: StoreModel, i: int, token: Seq<char>)
    requires
        m.tokens_unique(),
        0 <= i < m.tokens.len(),
        m.tokens[i].token == token,
    ensures
        m.has_token(token),
        m.token_at(token) == m.tokens[i],
{
    let j = choose|j: int| 0 <= j < m.tokens.len() && (#[trigger] m.tokens[j]).token == token;
    if i < j {
        assert(m.tokens[i].token != m.tokens[j].token);
    } else if j < i {
        assert(m.tokens[j].token != m.tokens[i].token);
    }
}

/// Appending a row for a pair the ledger does not hold keeps the
/// `(user_id, key)` pairs unique.
pub proof fn lemma_pushed_record_unique(m: StoreModel, m2: StoreModel, rec: RecordModel)
    requires
        m.idempotency_unique(),
        !m.has_record(rec.user_id, rec.key),
        m2.idempotency == m.idempotency.push(rec),
    ensures
        m2.idempotency_unique(),
{
    assert forall|a: int, b: int| 0 <= a < b < m2.idempotency.len() implies !(
    #[trigger] m2.idempotency[a].user_id == #[trigger] m2.idempotency[b].user_id
        && m2.idempotency[a].key == m2.idempotency[b].key) by {
        if b == m.idempotency.len() {
            assert(m2.idempotency[a] == m.idempotency[a]);
            if m.idempotency[a].user_id == rec.user_id && m.idempotency[a].key == rec.key {
                assert(m.has_record(rec.user_id, rec.key));
            }
        } else {
            assert(m2.idempotency[a] == m.idempotency[a]);
            assert(m2.idempotency[b] == m.idempotency[b]);
        }
    }
}

/// Referential integrity is a property of the referencing and referenced
/// tables alone: it carries over to any model that shares them.
pub proof fn lemma_references_transfer(a: StoreModel, b: StoreModel)
    requires
        a.tasks_reference_issues(),
        a.tokens_reference_subscribers(),
        b.issues == a.issues,
        b.delivery_queue == a.delivery_queue,
        b.subscribers == a.subscribers,
        b.tokens == a.tokens,
    ensures
        b.tasks_reference_issues(),
        b.tokens_reference_subscribers(),
{
    assert forall|i: int| 0 <= i < b.delivery_queue.len() implies b.has_issue(
        (#[trigger] b.delivery_queue[i]).issue_id,
    ) by {
        assert(a.has_issue(a.delivery_queue[i].issue_id));
        let w = choose|w: int|
            0 <= w < a.issues.len() && (#[trigger] a.issues[w]).issue_id
                == a.delivery_queue[i].issue_id;
        assert(b.issues[w].issue_id == b.delivery_queue[i].issue_id);
    }
    assert forall|i: int| 0 <= i < b.tokens.len() implies b.has_subscriber(
        (#[trigger] b.tokens[i]).subscriber_id,
    ) by {
        assert(a.has_subscriber(a.tokens[i].subscriber_id));
        let w = choose|w: int|
            0 <= w < a.subscribers.len() && (#[trigger] a.subscribers[w]).id
                == a.tokens[i].subscriber_id;
        assert(b.subscribers[w].id == b.tokens[i].subscriber_id);
    }
}

// ---------------------------------------------------------------------------
// The store
// ---------------------------------------------------------------------------

/// The shared mutable state of the service. All mutation happens through
/// the verified operations of the surrounding modules.
pub struct Store {
    pub idempotency: Vec<IdempotencyRecord>,
    pub issues: Vec<NewsletterIssue>,
    pub delivery_queue: Vec<DeliveryTask>,
    pub subscribers: Vec<Subscriber>,
    pub tokens: Vec<SubscriptionToken>,
    pub next_issue_id: u64,
    pub next_subscriber_id: u64,
}

impl View for Store {
    type V = StoreModel;

    open spec fn view(&self) -> StoreModel {
        StoreModel {
            idempotency: self.idempotency@.map_values(|r: IdempotencyRecord| r@),
            issues: self.issues@.map_values(|r: NewsletterIssue| r@),
            delivery_queue: self.delivery_queue@.map_values(|r: DeliveryTask| r@),
            subscribers: self.subscribers@.map_values(|r: Subscriber| r@),
            tokens: self.tokens@.map_values(|r: SubscriptionToken| r@),
            next_issue_id: self.next_issue_id,
            next_subscriber_id: self.next_subscriber_id,
        }
    }
}

impl Store {
    /// An empty store: no subscribers, no issues, nothing queued.
    pub fn new() -> (r: Store)
        ensures
            r@.wf(),
            r@.idempotency == Seq::<RecordModel>::empty(),
            r@.issues == Seq::<IssueModel>::empty(),
            r@.delivery_queue == Seq::<TaskModel>::empty(),
            r@.subscribers == Seq::<SubscriberModel>::empty(),
            r@.tokens == Seq::<TokenModel>::empty(),
            r@.next_issue_id == 0,
            r@.next_subscriber_id == 0,
    {
        let r = Store {
            idempotency: Vec::new(),
            issues: Vec::new(),
            delivery_queue: Vec::new(),
            subscribers: Vec::new(),
            tokens: Vec::new(),
            next_issue_id: 0,
            next_subscriber_id: 0,
        };
        proof {
            assert(r@.idempotency =~= Seq::<RecordModel>::empty());
            assert(r@.issues =~= Seq::<IssueModel>::empty());
            assert(r@.delivery_queue =~= Seq::<TaskModel>::empty());
            assert(r@.subscribers =~= Seq::<SubscriberModel>::empty());
            assert(r@.tokens =~= Seq::<TokenModel>::empty());
        }
        r
    }

    /// Reads a published issue, as the delivery worker does before
    /// dispatching a task that references it.
    pub fn get_issue(&self, issue_id: u64) -> (r: Option<NewsletterIssue>)
        requires
            self@.wf(),
        ensures
            match r {
                Some(iss) => self@.has_issue(issue_id) && iss@ == self@.issue_at(issue_id),
                None => !self@.has_issue(issue_id),
            },
    {
        let n = self.issues.len();
        let mut i: usize = 0;
        while i < n
            invariant
                n == self.issues.len(),
                i <= n,
                self@.wf(),
                forall|j: int| 0 <= j < i ==> (#[trigger] self@.issues[j]).issue_id != issue_id,
            decreases n - i,
        {
            if self.issues[i].issue_id == issue_id {
                let iss = &self.issues[i];
                let out = NewsletterIssue {
                    issue_id: iss.issue_id,
                    title: iss.title.clone(),
                    text_content: iss.text_content.clone(),
                    html_content: iss.html_content.clone(),
                    published_at: iss.published_at,
                };
                proof {
                    lemma_issue_at_index(self@, i as int, issue_id);
                    assert(out@ =~= self@.issues[i as int]);
                }
                return Some(out);
            }
            i = i + 1;
        }
        None
    }
}

} // verus!
