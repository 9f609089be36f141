//! The durable store shared by every request handler and worker instance.
//!
//! In the running service this state lives in a relational database; here it
//! is modelled as plain tables. Each public method of [`Store`] corresponds
//! to one atomic unit of the service's database schema — a single statement
//! with a uniqueness constraint, or a whole transaction — so an interleaving of
//! concurrent requests is exactly a sequence of these calls. Every method
//! carries a `*_step` predicate relating the store before and after, and the
//! laws about racing requests and workers are proved from those predicates.

use vstd::prelude::*;
use vstd::string::*;
use crate::response::{copy_response, Response, ResponseView};

verus! {

// ---------------------------------------------------------------------------
// Rows and their mathematical views
// ---------------------------------------------------------------------------

/// One idempotency record: key `(actor_id, idempotency_key)`, claimed when
/// `response` is `None`, completed once it is `Some`.
pub struct LedgerRow {
    pub actor_id: u128,
    pub idempotency_key: String,
    pub created_at: u64,
    pub response: Option<Response>,
}

#[verifier::ext_equal]
pub ghost struct LedgerRowView {
    pub actor_id: u128,
    pub idempotency_key: Seq<char>,
    pub created_at: u64,
    pub response: Option<ResponseView>,
}

impl DeepView for LedgerRow {
    type V = LedgerRowView;

    open spec fn deep_view(&self) -> LedgerRowView {
        LedgerRowView {
            actor_id: self.actor_id,
            idempotency_key: self.idempotency_key@,
            created_at: self.created_at,
            response: self.response.deep_view(),
        }
    }
}

/// One published newsletter issue. Immutable once created.
pub struct IssueRow {
    pub issue_id: u128,
    pub author_id: u128,
    pub title: String,
    pub text_content: String,
    pub html_content: String,
    pub published_at: u64,
}

#[verifier::ext_equal]
pub ghost struct IssueRowView {
    pub issue_id: u128,
    pub author_id: u128,
    pub title: Seq<char>,
    pub text_content: Seq<char>,
    pub html_content: Seq<char>,
    pub published_at: u64,
}

impl DeepView for IssueRow {
    type V = IssueRowView;

    open spec fn deep_view(&self) -> IssueRowView {
        IssueRowView {
            issue_id: self.issue_id,
            author_id: self.author_id,
            title: self.title@,
            text_content: self.text_content@,
            html_content: self.html_content@,
            published_at: self.published_at,
        }
    }
}

/// One pending delivery: issue to send, recipient to send it to.
/// `in_progress` models the row lock a worker holds while delivering;
/// `attempts` counts released transient failures, for backoff.
pub struct TaskRow {
    pub task_id: u64,
    pub issue_id: u128,
    pub recipient: String,
    pub in_progress: bool,
    pub attempts: u64,
}

#[verifier::ext_equal]
pub ghost struct TaskRowView {
    pub task_id: u64,
    pub issue_id: u128,
    pub recipient: Seq<char>,
    pub in_progress: bool,
    pub attempts: u64,
}

impl DeepView for TaskRow {
    type V = TaskRowView;

    open spec fn deep_view(&self) -> TaskRowView {
        TaskRowView {
            task_id: self.task_id,
            issue_id: self.issue_id,
            recipient: self.recipient@,
            in_progress: self.in_progress,
            attempts: self.attempts,
        }
    }
}

/// One subscriber: `confirmed` is false while the subscription is pending.
pub struct SubscriptionRow {
    pub subscriber_id: u128,
    pub email: String,
    pub name: String,
    pub subscribed_at: u64,
    pub confirmed: bool,
}

#[verifier::ext_equal]
pub ghost struct SubscriptionRowView {
    pub subscriber_id: u128,
    pub email: Seq<char>,
    pub name: Seq<char>,
    pub subscribed_at: u64,
    pub confirmed: bool,
}

impl DeepView for SubscriptionRow {
    type V = SubscriptionRowView;

    open spec fn deep_view(&self) -> SubscriptionRowView {
        SubscriptionRowView {
            subscriber_id: self.subscriber_id,
            email: self.email@,
            name: self.name@,
            subscribed_at: self.subscribed_at,
            confirmed: self.confirmed,
        }
    }
}

/// One activation token, pointing at the subscriber it confirms.
pub struct TokenRow {
    pub subscription_token: String,
    pub subscriber_id: u128,
}

#[verifier::ext_equal]
pub ghost struct TokenRowView {
    pub subscription_token: Seq<char>,
    pub subscriber_id: u128,
}

impl DeepView for TokenRow {
    type V = TokenRowView;

    open spec fn deep_view(&self) -> TokenRowView {
        TokenRowView {
            subscription_token: self.subscription_token@,
            subscriber_id: self.subscriber_id,
        }
    }
}

// ---------------------------------------------------------------------------
// The store and its view
// ---------------------------------------------------------------------------

/// The shared durable state: idempotency ledger, issues, outbox queue,
/// subscriptions and activation tokens.
pub struct Store {
    ledger: Vec<LedgerRow>,
    issues: Vec<IssueRow>,
    outbox: Vec<TaskRow>,
    subscriptions: Vec<SubscriptionRow>,
    tokens: Vec<TokenRow>,
    next_task_id: u64,
}

#[verifier::ext_equal]
pub ghost struct StoreView {
    pub ledger: Seq<LedgerRowView>,
    pub issues: Seq<IssueRowView>,
    pub outbox: Seq<TaskRowView>,
    pub subscriptions: Seq<SubscriptionRowView>,
    pub tokens: Seq<TokenRowView>,
    pub next_task_id: u64,
}

impl View for Store {
    type V = StoreView;

    closed spec fn view(&self) -> StoreView {
        StoreView {
            ledger: self.ledger.deep_view(),
            issues: self.issues.deep_view(),
            outbox: self.outbox.deep_view(),
            subscriptions: self.subscriptions.deep_view(),
            tokens: self.tokens.deep_view(),
            next_task_id: self.next_task_id,
        }
    }
}

// ---------------------------------------------------------------------------
// Ledger predicates
// ---------------------------------------------------------------------------

/// The row carries the given ledger key.
pub open spec fn row_match(row: LedgerRowView, actor_id: u128, key: Seq<char>) -> bool {
    row.actor_id == actor_id && row.idempotency_key == key
}

/// Some row carries the key, claimed or completed.
pub open spec fn ledger_has(l: Seq<LedgerRowView>, actor_id: u128, key: Seq<char>) -> bool {
    exists|i: int| 0 <= i < l.len() && row_match(#[trigger] l[i], actor_id, key)
}

/// Some row carries the key and is completed.
pub open spec fn ledger_completed(l: Seq<LedgerRowView>, actor_id: u128, key: Seq<char>) -> bool {
    exists|i: int|
        0 <= i < l.len() && row_match(#[trigger] l[i], actor_id, key) && l[i].response is Some
}

/// Some row carries the key and holds exactly this completed response.
pub open spec fn ledger_saved(
    l: Seq<LedgerRowView>,
    actor_id: u128,
    key: Seq<char>,
    resp: ResponseView,
) -> bool {
    exists|i: int|
        0 <= i < l.len() && row_match(#[trigger] l[i], actor_id, key) && l[i].response
            == Some(resp)
}

/// The index of the row carrying the key.
pub open spec fn ledger_index_of(l: Seq<LedgerRowView>, actor_id: u128, key: Seq<char>) -> int {
    choose|i: int| 0 <= i < l.len() && row_match(#[trigger] l[i], actor_id, key)
}

/// No two rows share a ledger key: the uniqueness constraint on
/// `(actor_id, idempotency_key)`.
pub open spec fn ledger_unique(l: Seq<LedgerRowView>) -> bool {
    forall|i: int, j: int|
        0 <= i < j < l.len() ==> !(#[trigger] l[i].actor_id == #[trigger] l[j].actor_id
            && l[i].idempotency_key == l[j].idempotency_key)
}

// ---------------------------------------------------------------------------
// Well-formedness: the constraints the database schema enforces
// ---------------------------------------------------------------------------

impl Store {
    /// Schema constraints: key uniqueness everywhere, task ids below the
    /// id counter, and the transactional-outbox invariant that every task
    /// points at a committed issue.
    pub open spec fn wf(&self) -> bool {
        let v = self@;
        &&& ledger_unique(v.ledger)
        &&& (forall|i: int, j: int|
            0 <= i < j < v.issues.len() ==> (#[trigger] v.issues[i]).issue_id != (
            #[trigger] v.issues[j]).issue_id)
        &&& (forall|i: int, j: int|
            0 <= i < j < v.outbox.len() ==> (#[trigger] v.outbox[i]).task_id != (
            #[trigger] v.outbox[j]).task_id)
        &&& (forall|i: int| 0 <= i < v.outbox.len() ==> (#[trigger] v.outbox[i]).task_id < v.next_task_id)
        &&& (forall|i: int|
            0 <= i < v.outbox.len() ==> issues_has(v.issues, (#[trigger] v.outbox[i]).issue_id))
        &&& (forall|i: int, j: int|
            0 <= i < j < v.subscriptions.len() ==> (#[trigger] v.subscriptions[i]).subscriber_id
                != (#[trigger] v.subscriptions[j]).subscriber_id)
        &&& (forall|i: int, j: int|
            0 <= i < j < v.subscriptions.len() ==> (#[trigger] v.subscriptions[i]).email != (
            #[trigger] v.subscriptions[j]).email)
        &&& (forall|i: int, j: int|
            0 <= i < j < v.tokens.len() ==> (#[trigger] v.tokens[i]).subscription_token != (
            #[trigger] v.tokens[j]).subscription_token)
    }
}

/// Some issue row carries this id.
pub open spec fn issues_has(issues: Seq<IssueRowView>, issue_id: u128) -> bool {
    exists|i: int| 0 <= i < issues.len() && (#[trigger] issues[i]).issue_id == issue_id
}

// ---------------------------------------------------------------------------
// Step predicates for the ledger operations
// ---------------------------------------------------------------------------

/// Outcome of claiming an idempotency key: either this caller inserted the
/// row, or a row for the key already existed.
#[derive(Clone, Copy, PartialEq, Eq, Debug)]
pub enum ClaimResult {
    Started,
    AlreadyExists,
}

/// How `try_claim` changes the store.
pub open spec fn claim_step(
    pre: StoreView,
    post: StoreView,
    actor_id: u128,
    key: Seq<char>,
    now: u64,
    r: ClaimResult,
) -> bool {
    &&& (r is Started <==> !ledger_has(pre.ledger, actor_id, key))
    &&& (r is Started ==> post == StoreView {
        ledger: pre.ledger.push(
            LedgerRowView {
                actor_id,
                idempotency_key: key,
                created_at: now,
                response: None::<ResponseView>,
            },
        ),
        ..pre
    })
    &&& (r is AlreadyExists ==> post == pre)
}

/// How `save_response` changes the store: the claimed row is completed in
/// place, exactly once.
pub open spec fn save_step(
    pre: StoreView,
    post: StoreView,
    actor_id: u128,
    key: Seq<char>,
    resp: ResponseView,
    saved: bool,
) -> bool {
    &&& (saved <==> ledger_has(pre.ledger, actor_id, key) && !ledger_completed(
        pre.ledger,
        actor_id,
        key,
    ))
    &&& (!saved ==> post == pre)
    &&& (saved ==> {
        let i = ledger_index_of(pre.ledger, actor_id, key);
        post == StoreView {
            ledger: pre.ledger.update(
                i,
                LedgerRowView { response: Some(resp), ..pre.ledger[i] },
            ),
            ..pre
        }
    })
}

// ---------------------------------------------------------------------------
// Ledger operations
// ---------------------------------------------------------------------------

impl Store {
    /// An empty store.
    pub fn new() -> (s: Store)
        ensures
            s.wf(),
            s@.ledger =~= Seq::<LedgerRowView>::empty(),
            s@.issues =~= Seq::<IssueRowView>::empty(),
            s@.outbox =~= Seq::<TaskRowView>::empty(),
            s@.subscriptions =~= Seq::<SubscriptionRowView>::empty(),
            s@.tokens =~= Seq::<TokenRowView>::empty(),
            s@.next_task_id == 0,
    {
        let s = Store {
            ledger: Vec::new(),
            issues: Vec::new(),
            outbox: Vec::new(),
            subscriptions: Vec::new(),
            tokens: Vec::new(),
            next_task_id: 0,
        };
        proof {
            assert(s@.ledger =~= Seq::<LedgerRowView>::empty());
            assert(s@.issues =~= Seq::<IssueRowView>::empty());
            assert(s@.outbox =~= Seq::<TaskRowView>::empty());
            assert(s@.subscriptions =~= Seq::<SubscriptionRowView>::empty());
            assert(s@.tokens =~= Seq::<TokenRowView>::empty());
        }
        s
    }

    /// Index of the ledger row carrying the key, if any.
    fn ledger_find(&self, actor_id: u128, key: &String) -> (r: Option<usize>)
        ensures
            match r {
                Some(i) => i < self@.ledger.len() && row_match(self@.ledger[i as int], actor_id, key@),
                None => !ledger_has(self@.ledger, actor_id, key@),
            },
    {
        let mut i: usize = 0;
        while i < self.ledger.len()
            invariant
                i <= self.ledger.len(),
                forall|j: int| 0 <= j < i ==> !row_match(#[trigger] self@.ledger[j], actor_id, key@),
            decreases self.ledger.len() - i,
        {
            if self.ledger[i].actor_id == actor_id && self.ledger[i].idempotency_key == *key {
                return Some(i);
            }
            i = i + 1;
        }
        None
    }

    /// Insert-if-absent on the ledger key, a single atomic statement: the
    /// uniqueness constraint decides the race, so of any number of
    /// concurrent claims for one key exactly the first returns `Started`.
    pub fn try_claim(&mut self, actor_id: u128, idempotency_key: &String, now: u64) -> (r:
        ClaimResult)
        requires
            old(self).wf(),
        ensures
            final(self).wf(),
            claim_step(old(self)@, final(self)@, actor_id, idempotency_key@, now, r),
            ledger_has(final(self)@.ledger, actor_id, idempotency_key@),
    {
        match self.ledger_find(actor_id, idempotency_key) {
            Some(_) => ClaimResult::AlreadyExists,
            None => {
                let row = LedgerRow {
                    actor_id,
                    idempotency_key: idempotency_key.clone(),
                    created_at: now,
                    response: None,
                };
                proof {
                    assert(row.deep_view() == LedgerRowView {
                        actor_id,
                        idempotency_key: idempotency_key@,
                        created_at: now,
                        response: None::<ResponseView>,
                    });
                }
                let ghost pre = self@;
                self.ledger.push(row);
                proof {
                    assert(self@.ledger =~= pre.ledger.push(row.deep_view()));
                    assert(self@ == StoreView { ledger: pre.ledger.push(row.deep_view()), ..pre });
                    let l = self@.ledger;
                    assert(l[l.len() - 1] == row.deep_view());
                    assert forall|i: int, j: int| 0 <= i < j < l.len() implies !(
                    #[trigger] l[i].actor_id == #[trigger] l[j].actor_id && l[i].idempotency_key
                        == l[j].idempotency_key) by {
                        if j < l.len() - 1 {
                            assert(ledger_unique(pre.ledger));
                        } else {
                            assert(!row_match(pre.ledger[i], actor_id, idempotency_key@));
                        }
                    }
                }
                ClaimResult::Started
            },
        }
    }

    /// The completed result for the key, copied out verbatim; `None` while
    /// the key is unclaimed or claimed-but-incomplete.
    pub fn get_saved_response(&self, actor_id: u128, idempotency_key: &String) -> (r: Option<
        Response,
    >)
        requires
            self.wf(),
        ensures
            match r {
                Some(resp) => ledger_saved(self@.ledger, actor_id, idempotency_key@, resp@),
                None => !ledger_completed(self@.ledger, actor_id, idempotency_key@),
            },
    {
        match self.ledger_find(actor_id, idempotency_key) {
            Some(i) => match &self.ledger[i].response {
                Some(resp) => {
                    let out = copy_response(resp);
                    proof {
                        assert(self@.ledger[i as int].response == Some(out@));
                    }
                    Some(out)
                },
                None => {
                    proof {
                        let l = self@.ledger;
                        assert forall|j: int|
                            0 <= j < l.len() && row_match(#[trigger] l[j], actor_id,
                            idempotency_key@) implies !(l[j].response is Some) by {
                            assert(ledger_unique(l));
                            assert(j == i as int);
                        }
                    }
                    None
                },
            },
            None => None,
        }
    }

    /// Fill in the result fields of the claimed row, the
    /// claimed-to-completed transition. It happens at most once per key:
    /// a completed row is never overwritten.
    pub fn save_response(&mut self, actor_id: u128, idempotency_key: &String, response: &Response)
        -> (saved: bool)
        requires
            old(self).wf(),
        ensures
            final(self).wf(),
            save_step(old(self)@, final(self)@, actor_id, idempotency_key@, response@, saved),
    {
        match self.ledger_find(actor_id, idempotency_key) {
            Some(i) => {
                if self.ledger[i].response.is_some() {
                    proof {
                        assert(ledger_completed(self@.ledger, actor_id, idempotency_key@));
                    }
                    false
                } else {
                    let ghost pre = self@;
                    let created_at = self.ledger[i].created_at;
                    let row = LedgerRow {
                        actor_id,
                        idempotency_key: idempotency_key.clone(),
                        created_at,
                        response: Some(copy_response(response)),
                    };
                    self.ledger.set(i, row);
                    proof {
                        let gi = ledger_index_of(pre.ledger, actor_id, idempotency_key@);
                        assert(ledger_unique(pre.ledger));
                        assert(row_match(pre.ledger[i as int], actor_id, idempotency_key@));
                        assert(gi == i as int);
                        assert(row.deep_view() == LedgerRowView {
                            response: Some(response@),
                            ..pre.ledger[gi]
                        });
                        assert(self@.ledger =~= pre.ledger.update(gi, row.deep_view()));
                        assert(self@ == StoreView {
                            ledger: pre.ledger.update(gi, row.deep_view()),
                            ..pre
                        });
                        assert(!ledger_completed(pre.ledger, actor_id, idempotency_key@)) by {
                            if ledger_completed(pre.ledger, actor_id, idempotency_key@) {
                                let j = choose|j: int|
                                    0 <= j < pre.ledger.len() && row_match(
                                        #[trigger] pre.ledger[j],
                                        actor_id,
                                        idempotency_key@,
                                    ) && pre.ledger[j].response is Some;
                                assert(j == i as int);
                            }
                        }
                    }
                    true
                }
            },
            None => false,
        }
    }

    /// Undo a claim whose enclosing transaction rolled back: remove the
    /// pending row for the key, so that a retried request re-attempts. In
    /// the running service the claim insert and the business write share one
    /// transaction, so the rollback removes the claim with everything else;
    /// this models that removal. A completed row is never removed.
    pub(crate) fn rollback_claim(&mut self, actor_id: u128, idempotency_key: &String)
        requires
            old(self).wf(),
        ensures
            final(self).wf(),
            ledger_has(old(self)@.ledger, actor_id, idempotency_key@) && !ledger_completed(
                old(self)@.ledger,
                actor_id,
                idempotency_key@,
            ) ==> final(self)@ == (StoreView {
                ledger: old(self)@.ledger.remove(
                    ledger_index_of(old(self)@.ledger, actor_id, idempotency_key@),
                ),
                ..old(self)@
            }),
            !(ledger_has(old(self)@.ledger, actor_id, idempotency_key@) && !ledger_completed(
                old(self)@.ledger,
                actor_id,
                idempotency_key@,
            )) ==> final(self)@ == old(self)@,
    {
        match self.ledger_find(actor_id, idempotency_key) {
            Some(i) => {
                if self.ledger[i].response.is_some() {
                    proof {
                        assert(ledger_completed(self@.ledger, actor_id, idempotency_key@));
                    }
                } else {
                    let ghost pre = self@;
                    self.ledger.remove(i);
                    proof {
                        let gi = ledger_index_of(pre.ledger, actor_id, idempotency_key@);
                        assert(ledger_unique(pre.ledger));
                        assert(row_match(pre.ledger[i as int], actor_id, idempotency_key@));
                        assert(gi == i as int);
                        assert(!ledger_completed(pre.ledger, actor_id, idempotency_key@)) by {
                            if ledger_completed(pre.ledger, actor_id, idempotency_key@) {
                                let j = choose|j: int|
                                    0 <= j < pre.ledger.len() && row_match(
                                        #[trigger] pre.ledger[j],
                                        actor_id,
                                        idempotency_key@,
                                    ) && pre.ledger[j].response is Some;
                                assert(j == i as int);
                            }
                        }
                        assert(self@.ledger =~= pre.ledger.remove(gi));
                        assert(self@ == StoreView { ledger: pre.ledger.remove(gi), ..pre });
                        pre.ledger.remove_ensures(gi);
                        let post_ledger = self@.ledger;
                        assert forall|a: int, b: int|
                            0 <= a < b < post_ledger.len() implies !((
                        #[trigger] post_ledger[a]).actor_id == (
                        #[trigger] post_ledger[b]).actor_id && post_ledger[a].idempotency_key
                            == post_ledger[b].idempotency_key) by {
                            if a < gi {
                                assert(post_ledger[a] == pre.ledger[a]);
                            } else {
                                assert(post_ledger[a] == pre.ledger[a + 1]);
                            }
                            if b < gi {
                                assert(post_ledger[b] == pre.ledger[b]);
                            } else {
                                assert(post_ledger[b] == pre.ledger[b + 1]);
                            }
                        }
                    }
                }
            },
            None => {},
        }
    }

    /// Number of rows in the ledger.
    pub fn ledger_count(&self) -> (n: usize)
        ensures
            n == self@.ledger.len(),
    {
        self.ledger.len()
    }

    /// Number of committed issues.
    pub fn issue_count(&self) -> (n: usize)
        ensures
            n == self@.issues.len(),
    {
        self.issues.len()
    }

    /// Depth of the outbox queue, for operational visibility.
    pub fn task_count(&self) -> (n: usize)
        ensures
            n == self@.outbox.len(),
    {
        self.outbox.len()
    }
}

// ---------------------------------------------------------------------------
// The publish transaction
// ---------------------------------------------------------------------------

/// How many subscriptions are confirmed.
pub open spec fn count_confirmed(subs: Seq<SubscriptionRowView>) -> int
    decreases subs.len(),
{
    if subs.len() == 0 {
        0
    } else {
        count_confirmed(subs.drop_last()) + if subs.last().confirmed {
            1int
        } else {
            0int
        }
    }
}

/// The addresses of the confirmed subscriptions, in table order.
pub open spec fn confirmed_emails(subs: Seq<SubscriptionRowView>) -> Seq<Seq<char>>
    decreases subs.len(),
{
    if subs.len() == 0 {
        Seq::empty()
    } else if subs.last().confirmed {
        confirmed_emails(subs.drop_last()).push(subs.last().email)
    } else {
        confirmed_emails(subs.drop_last())
    }
}

/// The delivery tasks a publish enqueues: one unlocked, fresh task per
/// confirmed subscription, ids handed out consecutively from
/// `first_task_id`, in table order.
pub open spec fn delivery_tasks(
    subs: Seq<SubscriptionRowView>,
    issue_id: u128,
    first_task_id: u64,
) -> Seq<TaskRowView>
    decreases subs.len(),
{
    if subs.len() == 0 {
        Seq::empty()
    } else {
        let front = delivery_tasks(subs.drop_last(), issue_id, first_task_id);
        if subs.last().confirmed {
            front.push(
                TaskRowView {
                    task_id: (first_task_id + front.len()) as u64,
                    issue_id,
                    recipient: subs.last().email,
                    in_progress: false,
                    attempts: 0,
                },
            )
        } else {
            front
        }
    }
}

/// The confirmed count lies between zero and the table size.
pub proof fn lemma_count_confirmed_bounds(subs: Seq<SubscriptionRowView>)
    ensures
        0 <= count_confirmed(subs) <= subs.len(),
    decreases subs.len(),
{
    if subs.len() > 0 {
        lemma_count_confirmed_bounds(subs.drop_last());
    }
}

/// A prefix never has more confirmed subscriptions than the whole table.
pub proof fn lemma_count_confirmed_take(subs: Seq<SubscriptionRowView>, i: int)
    requires
        0 <= i <= subs.len(),
    ensures
        count_confirmed(subs.take(i)) <= count_confirmed(subs),
    decreases subs.len(),
{
    if i == subs.len() {
        assert(subs.take(i) =~= subs);
    } else {
        assert(subs.take(i) =~= subs.drop_last().take(i));
        lemma_count_confirmed_take(subs.drop_last(), i);
    }
}

/// Shape of the enqueued tasks: as many as there are confirmed
/// subscriptions, consecutive fresh ids, unlocked, no attempts yet, and the
/// recipients are exactly the confirmed addresses in order.
pub proof fn lemma_delivery_tasks(subs: Seq<SubscriptionRowView>, issue_id: u128, first: u64)
    requires
        first + count_confirmed(subs) <= u64::MAX,
    ensures
        delivery_tasks(subs, issue_id, first).len() == count_confirmed(subs),
        confirmed_emails(subs).len() == count_confirmed(subs),
        forall|i: int|
            0 <= i < count_confirmed(subs) ==> {
                let t = #[trigger] delivery_tasks(subs, issue_id, first)[i];
                &&& t.task_id == first + i
                &&& t.issue_id == issue_id
                &&& !t.in_progress
                &&& t.attempts == 0
                &&& t.recipient == confirmed_emails(subs)[i]
            },
    decreases subs.len(),
{
    lemma_count_confirmed_bounds(subs);
    if subs.len() > 0 {
        lemma_count_confirmed_bounds(subs.drop_last());
        lemma_delivery_tasks(subs.drop_last(), issue_id, first);
    }
}

/// How `commit_publish` changes the store. On success — and success depends
/// only on the store and the arguments — the issue row, its delivery tasks
/// and the completed idempotency record all appear in one step: the
/// transactional outbox. On failure nothing changes at all.
pub open spec fn commit_step(
    pre: StoreView,
    post: StoreView,
    actor_id: u128,
    key: Seq<char>,
    issue_id: u128,
    title: Seq<char>,
    html: Seq<char>,
    plain: Seq<char>,
    resp: ResponseView,
    now: u64,
    committed: bool,
) -> bool {
    &&& (committed <==> ledger_has(pre.ledger, actor_id, key) && !ledger_completed(
        pre.ledger,
        actor_id,
        key,
    ) && !issues_has(pre.issues, issue_id) && pre.next_task_id + count_confirmed(
        pre.subscriptions,
    ) <= u64::MAX)
    &&& (!committed ==> post == pre)
    &&& (committed ==> {
        let li = ledger_index_of(pre.ledger, actor_id, key);
        &&& post.ledger == pre.ledger.update(
            li,
            LedgerRowView { response: Some(resp), ..pre.ledger[li] },
        )
        &&& post.issues == pre.issues.push(
            IssueRowView {
                issue_id,
                author_id: actor_id,
                title,
                text_content: plain,
                html_content: html,
                published_at: now,
            },
        )
        &&& post.outbox == pre.outbox + delivery_tasks(
            pre.subscriptions,
            issue_id,
            pre.next_task_id,
        )
        &&& post.subscriptions == pre.subscriptions
        &&& post.tokens == pre.tokens
        &&& post.next_task_id == pre.next_task_id + count_confirmed(pre.subscriptions)
    })
}

impl Store {
    /// Index of the issue row carrying the id, if any.
    fn issue_find(&self, issue_id: u128) -> (r: Option<usize>)
        ensures
            match r {
                Some(i) => i < self@.issues.len() && self@.issues[i as int].issue_id == issue_id,
                None => !issues_has(self@.issues, issue_id),
            },
    {
        let mut i: usize = 0;
        while i < self.issues.len()
            invariant
                i <= self.issues.len(),
                forall|j: int| 0 <= j < i ==> (#[trigger] self@.issues[j]).issue_id != issue_id,
            decreases self.issues.len() - i,
        {
            if self.issues[i].issue_id == issue_id {
                return Some(i);
            }
            i = i + 1;
        }
        None
    }

    /// How many subscriptions are confirmed right now.
    pub fn confirmed_count(&self) -> (n: usize)
        ensures
            n == count_confirmed(self@.subscriptions),
    {
        let mut n: usize = 0;
        let mut i: usize = 0;
        while i < self.subscriptions.len()
            invariant
                i <= self.subscriptions.len(),
                n <= i,
                n == count_confirmed(self@.subscriptions.take(i as int)),
            decreases self.subscriptions.len() - i,
        {
            proof {
                assert(self@.subscriptions.take(i + 1 as int).drop_last() =~= self@.subscriptions.take(i as int));
                assert(self@.subscriptions.take(i + 1 as int).last() == self@.subscriptions[i as int]);
            }
            if self.subscriptions[i].confirmed {
                n = n + 1;
            }
            i = i + 1;
        }
        proof {
            assert(self@.subscriptions.take(self.subscriptions.len() as int) =~= self@.subscriptions);
        }
        n
    }

    /// The whole publish transaction of the command processor, committed as
    /// one atomic unit: persist the issue, enqueue one delivery task per
    /// confirmed subscription, and record the final response under the
    /// claimed idempotency key. Fails — leaving the store untouched, as a
    /// rollback does — when the key was never claimed, when it was already
    /// completed, when the issue id collides, or when the task id counter
    /// would overflow.
    pub fn commit_publish(
        &mut self,
        actor_id: u128,
        idempotency_key: &String,
        issue_id: u128,
        title: &String,
        html: &String,
        plain: &String,
        response: &Response,
        now: u64,
    ) -> (committed: bool)
        requires
            old(self).wf(),
        ensures
            final(self).wf(),
            commit_step(
                old(self)@,
                final(self)@,
                actor_id,
                idempotency_key@,
                issue_id,
                title@,
                html@,
                plain@,
                response@,
                now,
                committed,
            ),
    {
        let li = match self.ledger_find(actor_id, idempotency_key) {
            Some(i) => i,
            None => {
                return false;
            },
        };
        if self.ledger[li].response.is_some() {
            proof {
                assert(ledger_completed(self@.ledger, actor_id, idempotency_key@));
            }
            return false;
        }
        proof {
            assert(!ledger_completed(self@.ledger, actor_id, idempotency_key@)) by {
                if ledger_completed(self@.ledger, actor_id, idempotency_key@) {
                    let j = choose|j: int|
                        0 <= j < self@.ledger.len() && row_match(
                            #[trigger] self@.ledger[j],
                            actor_id,
                            idempotency_key@,
                        ) && self@.ledger[j].response is Some;
                    assert(j == li as int);
                }
            }
        }
        if self.issue_find(issue_id).is_some() {
            return false;
        }
        let confirmed = self.confirmed_count();
        proof {
            lemma_count_confirmed_bounds(self@.subscriptions);
        }
        if self.next_task_id > u64::MAX - confirmed as u64 {
            return false;
        }
        let ghost pre = self@;

        // Complete the idempotency record.
        let created_at = self.ledger[li].created_at;
        let row = LedgerRow {
            actor_id,
            idempotency_key: idempotency_key.clone(),
            created_at,
            response: Some(copy_response(response)),
        };
        self.ledger.set(li, row);
        proof {
            let gi = ledger_index_of(pre.ledger, actor_id, idempotency_key@);
            assert(row_match(pre.ledger[li as int], actor_id, idempotency_key@));
            assert(gi == li as int);
            assert(self@.ledger =~= pre.ledger.update(
                gi,
                LedgerRowView { response: Some(response@), ..pre.ledger[gi] },
            ));
        }

        // Persist the issue.
        self.issues.push(
            IssueRow {
                issue_id,
                author_id: actor_id,
                title: title.clone(),
                text_content: plain.clone(),
                html_content: html.clone(),
                published_at: now,
            },
        );
        proof {
            assert(self@.issues =~= pre.issues.push(
                IssueRowView {
                    issue_id,
                    author_id: actor_id,
                    title: title@,
                    text_content: plain@,
                    html_content: html@,
                    published_at: now,
                },
            ));
        }
        let ghost mid_ledger = self@.ledger;
        let ghost mid_issues = self@.issues;

        // Enqueue one delivery task per confirmed subscription.
        let mut si: usize = 0;
        while si < self.subscriptions.len()
            invariant
                si <= self.subscriptions.len(),
                self@.ledger == mid_ledger,
                self@.issues == mid_issues,
                self@.subscriptions == pre.subscriptions,
                self@.tokens == pre.tokens,
                pre.next_task_id + count_confirmed(pre.subscriptions) <= u64::MAX,
                self@.next_task_id == pre.next_task_id + count_confirmed(
                    pre.subscriptions.take(si as int),
                ),
                self@.outbox == pre.outbox + delivery_tasks(
                    pre.subscriptions.take(si as int),
                    issue_id,
                    pre.next_task_id,
                ),
            decreases self.subscriptions.len() - si,
        {
            proof {
                assert(pre.subscriptions.take(si + 1 as int).drop_last() =~= pre.subscriptions.take(
                    si as int,
                ));
                assert(pre.subscriptions.take(si + 1 as int).last() == pre.subscriptions[si as int]);
                lemma_count_confirmed_take(pre.subscriptions, si + 1 as int);
                lemma_delivery_tasks(
                    pre.subscriptions.take(si as int),
                    issue_id,
                    pre.next_task_id,
                );
                lemma_count_confirmed_take(pre.subscriptions, si as int);
            }
            if self.subscriptions[si].confirmed {
                let task = TaskRow {
                    task_id: self.next_task_id,
                    issue_id,
                    recipient: self.subscriptions[si].email.clone(),
                    in_progress: false,
                    attempts: 0,
                };
                let ghost pre_outbox = self@.outbox;
                self.outbox.push(task);
                self.next_task_id = self.next_task_id + 1;
                proof {
                    assert(self@.outbox =~= pre_outbox.push(task.deep_view()));
                    assert(self@.outbox =~= pre.outbox + delivery_tasks(
                        pre.subscriptions.take(si + 1 as int),
                        issue_id,
                        pre.next_task_id,
                    ));
                }
            } else {
                proof {
                    assert(delivery_tasks(
                        pre.subscriptions.take(si + 1 as int),
                        issue_id,
                        pre.next_task_id,
                    ) == delivery_tasks(pre.subscriptions.take(si as int), issue_id, pre.next_task_id));
                }
            }
            si = si + 1;
        }
        proof {
            assert(pre.subscriptions.take(self.subscriptions.len() as int) =~= pre.subscriptions);
            let post = self@;
            let new_tasks = delivery_tasks(pre.subscriptions, issue_id, pre.next_task_id);
            lemma_delivery_tasks(pre.subscriptions, issue_id, pre.next_task_id);
            assert(commit_step(
                pre,
                post,
                actor_id,
                idempotency_key@,
                issue_id,
                title@,
                html@,
                plain@,
                response@,
                now,
                true,
            ));

            // Well-formedness of the new store.
            assert(ledger_unique(post.ledger));
            assert forall|i: int, j: int| 0 <= i < j < post.issues.len() implies (
            #[trigger] post.issues[i]).issue_id != (#[trigger] post.issues[j]).issue_id by {
                if j == post.issues.len() - 1 {
                    assert(!issues_has(pre.issues, issue_id));
                    assert(pre.issues[i].issue_id != issue_id);
                }
            }
            assert forall|i: int|
                0 <= i < post.outbox.len() implies (#[trigger] post.outbox[i]).task_id
                < post.next_task_id by {
                if i >= pre.outbox.len() {
                    assert(new_tasks[i - pre.outbox.len()].task_id == pre.next_task_id + (i
                        - pre.outbox.len()));
                }
            }
            assert forall|i: int, j: int| 0 <= i < j < post.outbox.len() implies (
            #[trigger] post.outbox[i]).task_id != (#[trigger] post.outbox[j]).task_id by {
                if i < pre.outbox.len() && j >= pre.outbox.len() {
                    assert(pre.outbox[i].task_id < pre.next_task_id);
                    assert(new_tasks[j - pre.outbox.len()].task_id >= pre.next_task_id);
                } else if i >= pre.outbox.len() {
                    assert(new_tasks[i - pre.outbox.len()].task_id == pre.next_task_id + (i
                        - pre.outbox.len()));
                    assert(new_tasks[j - pre.outbox.len()].task_id == pre.next_task_id + (j
                        - pre.outbox.len()));
                }
            }
            assert forall|i: int| 0 <= i < post.outbox.len() implies issues_has(
                post.issues,
                (#[trigger] post.outbox[i]).issue_id,
            ) by {
                if i < pre.outbox.len() {
                    assert(issues_has(pre.issues, pre.outbox[i].issue_id));
                    let w = choose|k: int|
                        0 <= k < pre.issues.len() && (#[trigger] pre.issues[k]).issue_id
                            == pre.outbox[i].issue_id;
                    assert(post.issues[w].issue_id == pre.outbox[i].issue_id);
                } else {
                    assert(post.outbox[i].issue_id == issue_id);
                    assert(post.issues[post.issues.len() - 1].issue_id == issue_id);
                }
            }
        }
        true
    }
}

// ---------------------------------------------------------------------------
// The delivery worker's store operations
// ---------------------------------------------------------------------------

/// What a worker holds after dequeuing a task: enough to deliver and to
/// report back, plus the attempt count for backoff.
pub struct TaskLease {
    pub task_id: u64,
    pub issue_id: u128,
    pub recipient: String,
    pub attempts: u64,
}

#[verifier::ext_equal]
pub ghost struct TaskLeaseView {
    pub task_id: u64,
    pub issue_id: u128,
    pub recipient: Seq<char>,
    pub attempts: u64,
}

impl DeepView for TaskLease {
    type V = TaskLeaseView;

    open spec fn deep_view(&self) -> TaskLeaseView {
        TaskLeaseView {
            task_id: self.task_id,
            issue_id: self.issue_id,
            recipient: self.recipient@,
            attempts: self.attempts,
        }
    }
}

/// The task at index `i` is the first one no worker is processing.
pub open spec fn first_pending_at(outbox: Seq<TaskRowView>, i: int) -> bool {
    &&& 0 <= i < outbox.len()
    &&& !outbox[i].in_progress
    &&& forall|j: int| 0 <= j < i ==> (#[trigger] outbox[j]).in_progress
}

/// Every queued task is being processed by some worker.
pub open spec fn all_in_progress(outbox: Seq<TaskRowView>) -> bool {
    forall|i: int| 0 <= i < outbox.len() ==> (#[trigger] outbox[i]).in_progress
}

/// The lease carries the row's id, issue, recipient and attempt count.
pub open spec fn lease_matches(t: TaskRowView, l: TaskLeaseView) -> bool {
    &&& t.task_id == l.task_id
    &&& t.issue_id == l.issue_id
    &&& t.recipient == l.recipient
    &&& t.attempts == l.attempts
}

/// How `dequeue_task` changes the store: the first unlocked task, if there
/// is one, becomes locked and is handed out; nothing else moves.
pub open spec fn dequeue_step(pre: StoreView, post: StoreView, r: Option<TaskLeaseView>) -> bool {
    match r {
        None => post == pre && all_in_progress(pre.outbox),
        Some(l) => exists|i: int|
            {
                &&& #[trigger] first_pending_at(pre.outbox, i)
                &&& lease_matches(pre.outbox[i], l)
                &&& post == StoreView {
                    outbox: pre.outbox.update(
                        i,
                        TaskRowView { in_progress: true, ..pre.outbox[i] },
                    ),
                    ..pre
                }
            },
    }
}

/// The task with this id is queued and locked, at index `i`.
pub open spec fn task_locked_at(outbox: Seq<TaskRowView>, task_id: u64, i: int) -> bool {
    0 <= i < outbox.len() && outbox[i].task_id == task_id && outbox[i].in_progress
}

/// The task with this id is queued and locked.
pub open spec fn task_locked(outbox: Seq<TaskRowView>, task_id: u64) -> bool {
    exists|i: int| task_locked_at(outbox, task_id, i)
}

/// A released task: unlocked again, one more attempt on record.
pub open spec fn released(t: TaskRowView) -> TaskRowView {
    TaskRowView {
        in_progress: false,
        attempts: if t.attempts == u64::MAX {
            u64::MAX
        } else {
            (t.attempts + 1) as u64
        },
        ..t
    }
}

/// How `finish_delivery` changes the store. A retried task stays queued —
/// never deleted on transient failure — with its lock released; a finished
/// one (delivered, or failed permanently) disappears. A lease nothing is
/// locked under changes nothing.
pub open spec fn finish_step(pre: StoreView, post: StoreView, task_id: u64, retry: bool) -> bool {
    &&& (!task_locked(pre.outbox, task_id) ==> post == pre)
    &&& (task_locked(pre.outbox, task_id) ==> exists|i: int|
        {
            &&& #[trigger] task_locked_at(pre.outbox, task_id, i)
            &&& (retry ==> post == StoreView {
                outbox: pre.outbox.update(i, released(pre.outbox[i])),
                ..pre
            })
            &&& (!retry ==> post == StoreView { outbox: pre.outbox.remove(i), ..pre })
        })
}

impl Store {
    /// Dequeue-with-lock, a single atomic statement: select the first task
    /// no other worker is processing and mark it in progress, so that two
    /// worker instances never hold the same task.
    pub fn dequeue_task(&mut self) -> (r: Option<TaskLease>)
        requires
            old(self).wf(),
        ensures
            final(self).wf(),
            dequeue_step(old(self)@, final(self)@, r.deep_view()),
    {
        let mut i: usize = 0;
        while i < self.outbox.len()
            invariant
                i <= self.outbox.len(),
                self == old(self),
                old(self).wf(),
                forall|j: int| 0 <= j < i ==> (#[trigger] self@.outbox[j]).in_progress,
            decreases self.outbox.len() - i,
        {
            if !self.outbox[i].in_progress {
                let lease = TaskLease {
                    task_id: self.outbox[i].task_id,
                    issue_id: self.outbox[i].issue_id,
                    recipient: self.outbox[i].recipient.clone(),
                    attempts: self.outbox[i].attempts,
                };
                let locked = TaskRow {
                    task_id: lease.task_id,
                    issue_id: self.outbox[i].issue_id,
                    recipient: self.outbox[i].recipient.clone(),
                    in_progress: true,
                    attempts: lease.attempts,
                };
                let ghost pre = self@;
                self.outbox.set(i, locked);
                proof {
                    assert(first_pending_at(pre.outbox, i as int));
                    assert(lease_matches(pre.outbox[i as int], lease.deep_view()));
                    assert(self@.outbox =~= pre.outbox.update(
                        i as int,
                        TaskRowView { in_progress: true, ..pre.outbox[i as int] },
                    ));
                    assert(self@ == StoreView {
                        outbox: pre.outbox.update(
                            i as int,
                            TaskRowView { in_progress: true, ..pre.outbox[i as int] },
                        ),
                        ..pre
                    });
                    let v = self@;
                    assert(ledger_unique(v.ledger));
                    assert(forall|a: int, b: int|
                        0 <= a < b < v.issues.len() ==> (#[trigger] v.issues[a]).issue_id != (
                        #[trigger] v.issues[b]).issue_id);
                    assert forall|a: int, b: int|
                        0 <= a < b < v.outbox.len() implies (#[trigger] v.outbox[a]).task_id != (
                    #[trigger] v.outbox[b]).task_id by {
                        assert(a != i as int ==> v.outbox[a] == pre.outbox[a]);
                        assert(b != i as int ==> v.outbox[b] == pre.outbox[b]);
                        assert(v.outbox[i as int].task_id == pre.outbox[i as int].task_id);
                    }
                    assert forall|a: int|
                        0 <= a < v.outbox.len() implies (#[trigger] v.outbox[a]).task_id
                        < v.next_task_id && issues_has(v.issues, v.outbox[a].issue_id) by {
                        assert(a != i as int ==> v.outbox[a] == pre.outbox[a]);
                        assert(v.outbox[i as int].issue_id == pre.outbox[i as int].issue_id);
                    }
                }
                return Some(lease);
            }
            i = i + 1;
        }
        None
    }

    /// Commit the outcome of one delivery attempt under the lease's lock:
    /// release the task for a later retry, or remove it for good.
    pub fn finish_delivery(&mut self, lease: TaskLease, retry: bool)
        requires
            old(self).wf(),
        ensures
            final(self).wf(),
            finish_step(old(self)@, final(self)@, lease.task_id, retry),
    {
        let mut i: usize = 0;
        while i < self.outbox.len()
            invariant
                i <= self.outbox.len(),
                self == old(self),
                old(self).wf(),
                forall|j: int|
                    0 <= j < i ==> !task_locked_at(self@.outbox, lease.task_id, j),
            decreases self.outbox.len() - i,
        {
            if self.outbox[i].task_id == lease.task_id && self.outbox[i].in_progress {
                let ghost pre = self@;
                if retry {
                    let row = TaskRow {
                        task_id: self.outbox[i].task_id,
                        issue_id: self.outbox[i].issue_id,
                        recipient: self.outbox[i].recipient.clone(),
                        in_progress: false,
                        attempts: if self.outbox[i].attempts == u64::MAX {
                            u64::MAX
                        } else {
                            self.outbox[i].attempts + 1
                        },
                    };
                    self.outbox.set(i, row);
                    proof {
                        assert(task_locked_at(pre.outbox, lease.task_id, i as int));
                        assert(self@.outbox =~= pre.outbox.update(
                            i as int,
                            released(pre.outbox[i as int]),
                        ));
                        assert(self@ == StoreView {
                            outbox: pre.outbox.update(i as int, released(pre.outbox[i as int])),
                            ..pre
                        });
                    }
                } else {
                    self.outbox.remove(i);
                    proof {
                        assert(task_locked_at(pre.outbox, lease.task_id, i as int));
                        assert(self@.outbox =~= pre.outbox.remove(i as int));
                        assert(self@ == StoreView {
                            outbox: pre.outbox.remove(i as int),
                            ..pre
                        });
                        pre.outbox.remove_ensures(i as int);
                        let post_outbox = self@.outbox;
                        assert forall|a: int|
                            0 <= a < post_outbox.len() implies (#[trigger] post_outbox[a])
                            == if a < i as int {
                            pre.outbox[a]
                        } else {
                            pre.outbox[a + 1]
                        } by {}
                        assert forall|a: int, b: int|
                            0 <= a < b < post_outbox.len() implies (
                        #[trigger] post_outbox[a]).task_id != (
                        #[trigger] post_outbox[b]).task_id by {
                            if a < i as int {
                                assert(post_outbox[a] == pre.outbox[a]);
                            } else {
                                assert(post_outbox[a] == pre.outbox[a + 1]);
                            }
                            if b < i as int {
                                assert(post_outbox[b] == pre.outbox[b]);
                            } else {
                                assert(post_outbox[b] == pre.outbox[b + 1]);
                            }
                        }
                        assert forall|a: int|
                            0 <= a < post_outbox.len() implies (#[trigger] post_outbox[a]).task_id
                            < self@.next_task_id && issues_has(
                            self@.issues,
                            post_outbox[a].issue_id,
                        ) by {
                            if a < i as int {
                                assert(post_outbox[a] == pre.outbox[a]);
                            } else {
                                assert(post_outbox[a] == pre.outbox[a + 1]);
                            }
                        }
                    }
                }
                return ;
            }
            i = i + 1;
        }
        proof {
            assert(!task_locked(self@.outbox, lease.task_id)) by {
                if task_locked(self@.outbox, lease.task_id) {
                    let j = choose|j: int| task_locked_at(self@.outbox, lease.task_id, j);
                }
            }
        }
    }

    /// The content of a committed issue, for a worker about to deliver it.
    pub fn issue_content(&self, issue_id: u128) -> (r: Option<(String, String, String)>)
        ensures
            match r {
                Some(c) => issue_content_is(self@.issues, issue_id, c.0@, c.1@, c.2@),
                None => !issues_has(self@.issues, issue_id),
            },
    {
        match self.issue_find(issue_id) {
            Some(i) => {
                let title = self.issues[i].title.clone();
                let html = self.issues[i].html_content.clone();
                let text = self.issues[i].text_content.clone();
                Some((title, html, text))
            },
            None => None,
        }
    }
}

/// Some issue row carries this id with exactly this content.
pub open spec fn issue_content_is(
    issues: Seq<IssueRowView>,
    issue_id: u128,
    title: Seq<char>,
    html: Seq<char>,
    text: Seq<char>,
) -> bool {
    exists|i: int|
        0 <= i < issues.len() && (#[trigger] issues[i]).issue_id == issue_id && issues[i].title
            == title && issues[i].html_content == html && issues[i].text_content == text
}

// ---------------------------------------------------------------------------
// Subscriptions and activation tokens
// ---------------------------------------------------------------------------

/// Some subscription row carries this subscriber id.
pub open spec fn subs_has_id(subs: Seq<SubscriptionRowView>, id: u128) -> bool {
    exists|i: int| 0 <= i < subs.len() && (#[trigger] subs[i]).subscriber_id == id
}

/// Some subscription row carries this address.
pub open spec fn subs_has_email(subs: Seq<SubscriptionRowView>, email: Seq<char>) -> bool {
    exists|i: int| 0 <= i < subs.len() && (#[trigger] subs[i]).email == email
}

/// Some token row carries this token.
pub open spec fn tokens_has(tokens: Seq<TokenRowView>, token: Seq<char>) -> bool {
    exists|i: int| 0 <= i < tokens.len() && (#[trigger] tokens[i]).subscription_token == token
}

/// Some token row carries this token, pointing at this subscriber.
pub open spec fn tokens_maps(tokens: Seq<TokenRowView>, token: Seq<char>, id: u128) -> bool {
    exists|i: int|
        0 <= i < tokens.len() && (#[trigger] tokens[i]).subscription_token == token
            && tokens[i].subscriber_id == id
}

/// How the subscribe transaction changes the store: a pending subscription
/// and its activation token appear together, or — when a uniqueness
/// constraint fires — nothing does.
pub open spec fn subscribe_step(
    pre: StoreView,
    post: StoreView,
    id: u128,
    email: Seq<char>,
    name: Seq<char>,
    token: Seq<char>,
    now: u64,
    ok: bool,
) -> bool {
    &&& (ok <==> !subs_has_id(pre.subscriptions, id) && !subs_has_email(pre.subscriptions, email)
        && !tokens_has(pre.tokens, token))
    &&& (!ok ==> post == pre)
    &&& (ok ==> post == StoreView {
        subscriptions: pre.subscriptions.push(
            SubscriptionRowView {
                subscriber_id: id,
                email,
                name,
                subscribed_at: now,
                confirmed: false,
            },
        ),
        tokens: pre.tokens.push(TokenRowView { subscription_token: token, subscriber_id: id }),
        ..pre
    })
}

/// The subscriptions after confirming one subscriber: the matching row is
/// confirmed, every other row is untouched.
pub open spec fn confirm_map(subs: Seq<SubscriptionRowView>, id: u128) -> Seq<
    SubscriptionRowView,
> {
    Seq::new(
        subs.len(),
        |i: int|
            if subs[i].subscriber_id == id {
                SubscriptionRowView { confirmed: true, ..subs[i] }
            } else {
                subs[i]
            },
    )
}

/// How `confirm_subscriber` changes the store.
pub open spec fn confirm_step(pre: StoreView, post: StoreView, id: u128) -> bool {
    post == StoreView { subscriptions: confirm_map(pre.subscriptions, id), ..pre }
}

impl Store {
    /// Insert the new pending subscription row.
    fn insert_subscriber(&mut self, row: SubscriptionRow)
        ensures
            final(self)@ == (StoreView {
                subscriptions: old(self)@.subscriptions.push(row.deep_view()),
                ..old(self)@
            }),
    {
        let ghost pre = self@;
        self.subscriptions.push(row);
        proof {
            assert(self@.subscriptions =~= pre.subscriptions.push(row.deep_view()));
        }
    }

    /// Insert the activation token row.
    fn store_token(&mut self, row: TokenRow)
        ensures
            final(self)@ == (StoreView {
                tokens: old(self)@.tokens.push(row.deep_view()),
                ..old(self)@
            }),
    {
        let ghost pre = self@;
        self.tokens.push(row);
        proof {
            assert(self@.tokens =~= pre.tokens.push(row.deep_view()));
        }
    }

    /// The transaction of the subscribe flow, committed as one atomic unit:
    /// the pending subscription and the activation token that can confirm
    /// it. Fails without any change when the id, the address or the token
    /// collides with an existing row, as the schema's uniqueness
    /// constraints would make it.
    pub fn subscribe_transaction(
        &mut self,
        subscriber_id: u128,
        email: &String,
        name: &String,
        token: &String,
        now: u64,
    ) -> (ok: bool)
        requires
            old(self).wf(),
        ensures
            final(self).wf(),
            subscribe_step(
                old(self)@,
                final(self)@,
                subscriber_id,
                email@,
                name@,
                token@,
                now,
                ok,
            ),
    {
        let mut i: usize = 0;
        while i < self.subscriptions.len()
            invariant
                i <= self.subscriptions.len(),
                self == old(self),
                old(self).wf(),
                forall|j: int|
                    0 <= j < i ==> (#[trigger] self@.subscriptions[j]).subscriber_id
                        != subscriber_id && self@.subscriptions[j].email != email@,
            decreases self.subscriptions.len() - i,
        {
            if self.subscriptions[i].subscriber_id == subscriber_id || self.subscriptions[i].email
                == *email {
                proof {
                    let w = self@.subscriptions[i as int];
                    assert(w.subscriber_id == subscriber_id || w.email == email@);
                    assert(subs_has_id(self@.subscriptions, subscriber_id) || subs_has_email(
                        self@.subscriptions,
                        email@,
                    ));
                }
                return false;
            }
            i = i + 1;
        }
        let mut t: usize = 0;
        while t < self.tokens.len()
            invariant
                t <= self.tokens.len(),
                self == old(self),
                old(self).wf(),
                forall|j: int|
                    0 <= j < t ==> (#[trigger] self@.tokens[j]).subscription_token != token@,
            decreases self.tokens.len() - t,
        {
            if self.tokens[t].subscription_token == *token {
                proof {
                    assert(self@.tokens[t as int].subscription_token == token@);
                    assert(tokens_has(self@.tokens, token@));
                }
                return false;
            }
            t = t + 1;
        }
        let ghost pre = self@;
        let sub_row = SubscriptionRow {
            subscriber_id,
            email: email.clone(),
            name: name.clone(),
            subscribed_at: now,
            confirmed: false,
        };
        let token_row = TokenRow { subscription_token: token.clone(), subscriber_id };
        proof {
            assert(sub_row.deep_view() == SubscriptionRowView {
                subscriber_id,
                email: email@,
                name: name@,
                subscribed_at: now,
                confirmed: false,
            });
            assert(token_row.deep_view() == TokenRowView {
                subscription_token: token@,
                subscriber_id,
            });
        }
        self.insert_subscriber(sub_row);
        self.store_token(token_row);
        proof {
            let post = self@;
            assert(post == StoreView {
                subscriptions: pre.subscriptions.push(sub_row.deep_view()),
                tokens: pre.tokens.push(token_row.deep_view()),
                ..pre
            });
            assert forall|a: int, b: int|
                0 <= a < b < post.subscriptions.len() implies (
            #[trigger] post.subscriptions[a]).subscriber_id != (
            #[trigger] post.subscriptions[b]).subscriber_id && post.subscriptions[a].email
                != post.subscriptions[b].email by {
                if b == post.subscriptions.len() - 1 {
                    assert(pre.subscriptions[a].subscriber_id != subscriber_id);
                    assert(pre.subscriptions[a].email != email@);
                }
            }
            assert forall|a: int, b: int|
                0 <= a < b < post.tokens.len() implies (
            #[trigger] post.tokens[a]).subscription_token != (
            #[trigger] post.tokens[b]).subscription_token by {
                if b == post.tokens.len() - 1 {
                    assert(pre.tokens[a].subscription_token != token@);
                }
            }
        }
        true
    }

    /// Who the activation token belongs to, if anyone.
    pub fn get_subscriber_id_from_token(&self, token: &String) -> (r: Option<u128>)
        ensures
            match r {
                Some(id) => tokens_maps(self@.tokens, token@, id),
                None => !tokens_has(self@.tokens, token@),
            },
    {
        let mut i: usize = 0;
        while i < self.tokens.len()
            invariant
                i <= self.tokens.len(),
                forall|j: int|
                    0 <= j < i ==> (#[trigger] self@.tokens[j]).subscription_token != token@,
            decreases self.tokens.len() - i,
        {
            if self.tokens[i].subscription_token == *token {
                let id = self.tokens[i].subscriber_id;
                proof {
                    assert(self@.tokens[i as int].subscription_token == token@
                        && self@.tokens[i as int].subscriber_id == id);
                }
                return Some(id);
            }
            i = i + 1;
        }
        None
    }

    /// Mark the subscriber's row confirmed, a single atomic update. A row
    /// that is already confirmed, or an id without a row, is left as the
    /// update finds it.
    pub fn confirm_subscriber(&mut self, subscriber_id: u128)
        requires
            old(self).wf(),
        ensures
            final(self).wf(),
            confirm_step(old(self)@, final(self)@, subscriber_id),
    {
        let ghost pre = self@;
        let mut i: usize = 0;
        while i < self.subscriptions.len()
            invariant
                i <= self.subscriptions.len(),
                old(self).wf(),
                self@.subscriptions.len() == pre.subscriptions.len(),
                self@ == (StoreView {
                    subscriptions: self@.subscriptions,
                    ..pre
                }),
                forall|j: int|
                    0 <= j < pre.subscriptions.len() ==> (#[trigger] self@.subscriptions[j])
                        == if j < i && pre.subscriptions[j].subscriber_id == subscriber_id {
                        SubscriptionRowView { confirmed: true, ..pre.subscriptions[j] }
                    } else {
                        pre.subscriptions[j]
                    },
            decreases self.subscriptions.len() - i,
        {
            if self.subscriptions[i].subscriber_id == subscriber_id && !self.subscriptions[i].confirmed {
                let row = SubscriptionRow {
                    subscriber_id: self.subscriptions[i].subscriber_id,
                    email: self.subscriptions[i].email.clone(),
                    name: self.subscriptions[i].name.clone(),
                    subscribed_at: self.subscriptions[i].subscribed_at,
                    confirmed: true,
                };
                let ghost before = self@;
                self.subscriptions.set(i, row);
                proof {
                    assert(self@.subscriptions =~= before.subscriptions.update(
                        i as int,
                        row.deep_view(),
                    ));
                    assert(before.subscriptions[i as int] == pre.subscriptions[i as int]);
                    assert(row.deep_view() == SubscriptionRowView {
                        confirmed: true,
                        ..pre.subscriptions[i as int]
                    });
                }
            }
            i = i + 1;
        }
        proof {
            assert forall|j: int|
                0 <= j < pre.subscriptions.len() implies #[trigger] self@.subscriptions[j]
                == confirm_map(pre.subscriptions, subscriber_id)[j] by {}
            assert(self@.subscriptions =~= confirm_map(pre.subscriptions, subscriber_id));
            assert(self@ == StoreView {
                subscriptions: confirm_map(pre.subscriptions, subscriber_id),
                ..pre
            });
            let post = self@;
            assert forall|a: int, b: int|
                0 <= a < b < post.subscriptions.len() implies (
            #[trigger] post.subscriptions[a]).subscriber_id != (
            #[trigger] post.subscriptions[b]).subscriber_id && post.subscriptions[a].email
                != post.subscriptions[b].email by {
                assert(post.subscriptions[a].subscriber_id == pre.subscriptions[a].subscriber_id
                    && post.subscriptions[a].email == pre.subscriptions[a].email);
                assert(post.subscriptions[b].subscriber_id == pre.subscriptions[b].subscriber_id
                    && post.subscriptions[b].email == pre.subscriptions[b].email);
            }
        }
    }

    /// Number of subscription rows, confirmed or pending.
    pub fn subscription_count(&self) -> (n: usize)
        ensures
            n == self@.subscriptions.len(),
    {
        self.subscriptions.len()
    }

    /// The confirmed recipients, in table order, each stored address parsed
    /// anew: an address that no longer validates is handed back as the
    /// error case and skipped by the caller, never failing the whole read.
    pub fn get_confirmed_subscribers(&self) -> (r: Vec<
        Result<crate::domain::SubscriberEmail, String>,
    >)
        ensures
            r.len() == count_confirmed(self@.subscriptions),
            forall|i: int|
                0 <= i < r.len() ==> {
                    let e = confirmed_emails(self@.subscriptions)[i];
                    match #[trigger] r[i] {
                        Ok(se) => crate::domain::is_valid_email(e) && se.spec_str() == e,
                        Err(_) => !crate::domain::is_valid_email(e),
                    }
                },
    {
        proof {
            lemma_count_confirmed_bounds(self@.subscriptions);
            lemma_confirmed_emails_len(self@.subscriptions);
        }
        let mut r: Vec<Result<crate::domain::SubscriberEmail, String>> = Vec::new();
        let mut i: usize = 0;
        while i < self.subscriptions.len()
            invariant
                i <= self.subscriptions.len(),
                r.len() == count_confirmed(self@.subscriptions.take(i as int)),
                confirmed_emails(self@.subscriptions.take(i as int)).len() == r.len(),
                forall|j: int|
                    0 <= j < r.len() ==> {
                        let e = confirmed_emails(self@.subscriptions.take(i as int))[j];
                        match #[trigger] r[j] {
                            Ok(se) => crate::domain::is_valid_email(e) && se.spec_str() == e,
                            Err(_) => !crate::domain::is_valid_email(e),
                        }
                    },
            decreases self.subscriptions.len() - i,
        {
            let ghost subs = self@.subscriptions;
            proof {
                assert(subs.take(i + 1 as int).drop_last() =~= subs.take(i as int));
                assert(subs.take(i + 1 as int).last() == subs[i as int]);
            }
            if self.subscriptions[i].confirmed {
                r.push(crate::domain::SubscriberEmail::parse(self.subscriptions[i].email.clone()));
                proof {
                    lemma_confirmed_emails_len(subs.take(i + 1 as int));
                    assert forall|j: int|
                        0 <= j < confirmed_emails(subs.take(i as int)).len() implies
                        #[trigger] confirmed_emails(subs.take(i + 1 as int))[j] == confirmed_emails(
                            subs.take(i as int),
                        )[j] by {}
                }
            }
            i = i + 1;
        }
        proof {
            assert(self@.subscriptions.take(self.subscriptions.len() as int) =~= self@.subscriptions);
        }
        r
    }
}

/// The confirmed addresses are as many as the confirmed subscriptions.
pub proof fn lemma_confirmed_emails_len(subs: Seq<SubscriptionRowView>)
    ensures
        confirmed_emails(subs).len() == count_confirmed(subs),
    decreases subs.len(),
{
    if subs.len() > 0 {
        lemma_confirmed_emails_len(subs.drop_last());
    }
}

} // verus!
