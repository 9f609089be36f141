//! The guarantees of the processor and the worker, proved once and for all
//! over the store's step predicates.
//!
//! Concurrency model: every store method is one atomic unit of the durable
//! store, so a run of concurrent requests and workers is an interleaving of
//! steps, each satisfying its `*_step` predicate. The laws below therefore
//! quantify over arbitrary store states and steps, with
//! [`store_evolution`] standing for whatever other activity happens in
//! between.

use vstd::prelude::*;
use crate::response::ResponseView;
use crate::store::{
    claim_step, commit_step, confirmed_emails, count_confirmed, delivery_tasks, dequeue_step,
    finish_step, first_pending_at, ledger_has, ledger_index_of, ledger_saved, ledger_unique,
    lemma_delivery_tasks, released, row_match, task_locked, task_locked_at, ClaimResult,
    StoreView, TaskLeaseView, TaskRowView,
};

verus! {

// ---------------------------------------------------------------------------
// What every store operation preserves
// ---------------------------------------------------------------------------

/// Every ledger key present before is still present after.
pub open spec fn ledger_monotone(pre: StoreView, post: StoreView) -> bool {
    forall|a: u128, k: Seq<char>|
        #[trigger] ledger_has(pre.ledger, a, k) ==> ledger_has(post.ledger, a, k)
}

/// Completed results are never changed or removed: whatever response a key
/// completed with, it is still recorded, verbatim.
pub open spec fn completed_frozen(pre: StoreView, post: StoreView) -> bool {
    forall|a: u128, k: Seq<char>, resp: ResponseView|
        #[trigger] ledger_saved(pre.ledger, a, k, resp) ==> ledger_saved(post.ledger, a, k, resp)
}

/// What the activity between two observations preserves of the ledger:
/// keys persist and completed results stay verbatim. Every step satisfies
/// it but one — the rollback of a failed business transaction, which takes
/// its own claim insert back with it; after that a fresh claim is exactly
/// the right outcome, so the laws below do not speak across it.
pub open spec fn store_evolution(pre: StoreView, post: StoreView) -> bool {
    &&& ledger_monotone(pre, post)
    &&& completed_frozen(pre, post)
}

/// Evolution composes: it holds across any sequence of steps that each
/// satisfy it.
pub proof fn lemma_store_evolution_trans(s1: StoreView, s2: StoreView, s3: StoreView)
    requires
        store_evolution(s1, s2),
        store_evolution(s2, s3),
    ensures
        store_evolution(s1, s3),
{
}

/// An operation that leaves the ledger alone — dequeue, finish, subscribe,
/// confirm — evolves the store.
pub proof fn lemma_same_ledger_evolution(pre: StoreView, post: StoreView)
    requires
        post.ledger == pre.ledger,
    ensures
        store_evolution(pre, post),
{
}

/// A claim evolves the store: it only ever adds a pending row.
pub proof fn lemma_claim_step_evolution(
    pre: StoreView,
    post: StoreView,
    actor_id: u128,
    key: Seq<char>,
    now: u64,
    r: ClaimResult,
)
    requires
        claim_step(pre, post, actor_id, key, now, r),
    ensures
        store_evolution(pre, post),
{
    if r is Started {
        assert forall|a: u128, k: Seq<char>| #[trigger] ledger_has(pre.ledger, a, k) implies
            ledger_has(post.ledger, a, k) by {
            let i = choose|i: int| 0 <= i < pre.ledger.len() && row_match(#[trigger] pre.ledger[i], a, k);
            assert(post.ledger[i] == pre.ledger[i]);
            assert(row_match(post.ledger[i], a, k));
        }
        assert forall|a: u128, k: Seq<char>, resp: ResponseView| #[trigger] ledger_saved(
            pre.ledger,
            a,
            k,
            resp,
        ) implies ledger_saved(post.ledger, a, k, resp) by {
            let i = choose|i: int|
                0 <= i < pre.ledger.len() && row_match(#[trigger] pre.ledger[i], a, k)
                    && pre.ledger[i].response == Some(resp);
            assert(post.ledger[i] == pre.ledger[i]);
        }
    }
}

/// Recording a result evolves the store: the one pending row it completes
/// was not completed before, and every other row is untouched.
pub proof fn lemma_save_step_evolution(
    pre: StoreView,
    post: StoreView,
    actor_id: u128,
    key: Seq<char>,
    resp: ResponseView,
    saved: bool,
)
    requires
        crate::store::save_step(pre, post, actor_id, key, resp, saved),
    ensures
        store_evolution(pre, post),
{
    if saved {
        let li = ledger_index_of(pre.ledger, actor_id, key);
        assert(0 <= li < pre.ledger.len() && row_match(pre.ledger[li], actor_id, key)) by {
            let w = choose|i: int|
                0 <= i < pre.ledger.len() && row_match(#[trigger] pre.ledger[i], actor_id, key);
            assert(row_match(pre.ledger[w], actor_id, key));
        }
        assert forall|a: u128, k: Seq<char>| #[trigger] ledger_has(pre.ledger, a, k) implies
            ledger_has(post.ledger, a, k) by {
            let i = choose|i: int| 0 <= i < pre.ledger.len() && row_match(#[trigger] pre.ledger[i], a, k);
            assert(row_match(post.ledger[i], a, k));
        }
        assert forall|a: u128, k: Seq<char>, r: ResponseView| #[trigger] ledger_saved(
            pre.ledger,
            a,
            k,
            r,
        ) implies ledger_saved(post.ledger, a, k, r) by {
            let i = choose|i: int|
                0 <= i < pre.ledger.len() && row_match(#[trigger] pre.ledger[i], a, k)
                    && pre.ledger[i].response == Some(r);
            if i == li {
                assert(pre.ledger[li].response is Some);
                assert(crate::store::ledger_completed(pre.ledger, actor_id, key));
            } else {
                assert(post.ledger[i] == pre.ledger[i]);
            }
        }
    }
}

/// The publish commit evolves the store the same way: it completes the one
/// pending row and touches no other ledger row.
pub proof fn lemma_commit_step_evolution(
    pre: StoreView,
    post: StoreView,
    actor_id: u128,
    key: Seq<char>,
    issue_id: u128,
    title: Seq<char>,
    html: Seq<char>,
    plain: Seq<char>,
    resp: ResponseView,
    now: u64,
    committed: bool,
)
    requires
        commit_step(pre, post, actor_id, key, issue_id, title, html, plain, resp, now, committed),
    ensures
        store_evolution(pre, post),
{
    if committed {
        let li = ledger_index_of(pre.ledger, actor_id, key);
        assert(0 <= li < pre.ledger.len() && row_match(pre.ledger[li], actor_id, key)) by {
            let w = choose|i: int|
                0 <= i < pre.ledger.len() && row_match(#[trigger] pre.ledger[i], actor_id, key);
            assert(row_match(pre.ledger[w], actor_id, key));
        }
        assert forall|a: u128, k: Seq<char>| #[trigger] ledger_has(pre.ledger, a, k) implies
            ledger_has(post.ledger, a, k) by {
            let i = choose|i: int| 0 <= i < pre.ledger.len() && row_match(#[trigger] pre.ledger[i], a, k);
            assert(row_match(post.ledger[i], a, k));
        }
        assert forall|a: u128, k: Seq<char>, r: ResponseView| #[trigger] ledger_saved(
            pre.ledger,
            a,
            k,
            r,
        ) implies ledger_saved(post.ledger, a, k, r) by {
            let i = choose|i: int|
                0 <= i < pre.ledger.len() && row_match(#[trigger] pre.ledger[i], a, k)
                    && pre.ledger[i].response == Some(r);
            if i == li {
                assert(pre.ledger[li].response is Some);
                assert(crate::store::ledger_completed(pre.ledger, actor_id, key));
            } else {
                assert(post.ledger[i] == pre.ledger[i]);
            }
        }
    }
}

/// The transactional outbox: a committed publish makes the issue and the
/// complete set of its delivery tasks visible in one step — one fresh,
/// unlocked task per confirmed recipient, in table order — and a failed
/// commit makes nothing visible at all. No partial task set ever exists.
pub proof fn lemma_transactional_outbox(
    pre: StoreView,
    post: StoreView,
    actor_id: u128,
    key: Seq<char>,
    issue_id: u128,
    title: Seq<char>,
    html: Seq<char>,
    plain: Seq<char>,
    resp: ResponseView,
    now: u64,
    committed: bool,
)
    requires
        commit_step(pre, post, actor_id, key, issue_id, title, html, plain, resp, now, committed),
    ensures
        !committed ==> post == pre,
        committed ==> post.outbox.len() == pre.outbox.len() + count_confirmed(pre.subscriptions),
        committed ==> forall|i: int|
            0 <= i < count_confirmed(pre.subscriptions) ==> {
                let t = #[trigger] post.outbox[pre.outbox.len() + i];
                &&& t.issue_id == issue_id
                &&& t.recipient == confirmed_emails(pre.subscriptions)[i]
                &&& !t.in_progress
                &&& t.attempts == 0
            },
        committed ==> post.outbox.subrange(0, pre.outbox.len() as int) == pre.outbox,
{
    if committed {
        lemma_delivery_tasks(pre.subscriptions, issue_id, pre.next_task_id);
        assert(post.outbox.subrange(0, pre.outbox.len() as int) =~= pre.outbox);
        assert forall|i: int| 0 <= i < count_confirmed(pre.subscriptions) implies {
            let t = #[trigger] post.outbox[pre.outbox.len() + i];
            &&& t.issue_id == issue_id
            &&& t.recipient == confirmed_emails(pre.subscriptions)[i]
            &&& !t.in_progress
            &&& t.attempts == 0
        } by {
            assert(post.outbox[pre.outbox.len() + i] == delivery_tasks(
                pre.subscriptions,
                issue_id,
                pre.next_task_id,
            )[i]);
        }
    }
}

// ---------------------------------------------------------------------------
// At-most-once execution
// ---------------------------------------------------------------------------

/// Of two claims for one `(actor, key)` — in either order, with any other
/// store activity between them — at most one returns `Started`. Only the
/// `Started` holder may execute the business write, so the write runs at
/// most once per key however many requests race.
pub proof fn lemma_at_most_once_claim(
    s0: StoreView,
    s1: StoreView,
    s2: StoreView,
    s3: StoreView,
    actor_id: u128,
    key: Seq<char>,
    n1: u64,
    n2: u64,
    r1: ClaimResult,
    r2: ClaimResult,
)
    requires
        claim_step(s0, s1, actor_id, key, n1, r1),
        store_evolution(s1, s2),
        claim_step(s2, s3, actor_id, key, n2, r2),
    ensures
        !(r1 is Started && r2 is Started),
{
    if r1 is Started && r2 is Started {
        let n = s0.ledger.len() as int;
        assert(row_match(s1.ledger[n], actor_id, key));
        assert(ledger_has(s1.ledger, actor_id, key));
        assert(ledger_has(s2.ledger, actor_id, key));
    }
}

// ---------------------------------------------------------------------------
// Replay fidelity
// ---------------------------------------------------------------------------

/// In a well-formed ledger, a key records at most one response.
pub proof fn lemma_saved_unique(
    l: Seq<crate::store::LedgerRowView>,
    actor_id: u128,
    key: Seq<char>,
    r1: ResponseView,
    r2: ResponseView,
)
    requires
        ledger_unique(l),
        ledger_saved(l, actor_id, key, r1),
        ledger_saved(l, actor_id, key, r2),
    ensures
        r1 == r2,
{
    let i = choose|i: int|
        0 <= i < l.len() && row_match(#[trigger] l[i], actor_id, key) && l[i].response == Some(r1);
    let j = choose|j: int|
        0 <= j < l.len() && row_match(#[trigger] l[j], actor_id, key) && l[j].response == Some(r2);
    assert(i == j);
}

/// The committed publish records exactly the response it returned: from the
/// commit on, the key is completed with those bytes.
pub proof fn lemma_commit_records(
    pre: StoreView,
    post: StoreView,
    actor_id: u128,
    key: Seq<char>,
    issue_id: u128,
    title: Seq<char>,
    html: Seq<char>,
    plain: Seq<char>,
    resp: ResponseView,
    now: u64,
)
    requires
        commit_step(pre, post, actor_id, key, issue_id, title, html, plain, resp, now, true),
    ensures
        ledger_saved(post.ledger, actor_id, key, resp),
{
    let li = ledger_index_of(pre.ledger, actor_id, key);
    assert(0 <= li < pre.ledger.len() && row_match(pre.ledger[li], actor_id, key)) by {
        let w = choose|i: int|
            0 <= i < pre.ledger.len() && row_match(#[trigger] pre.ledger[i], actor_id, key);
        assert(row_match(pre.ledger[w], actor_id, key));
    }
    assert(row_match(post.ledger[li], actor_id, key) && post.ledger[li].response == Some(resp));
}

/// Replay fidelity: once a response is recorded for a key, any later
/// lookup — after any amount of further store activity — finds exactly the
/// recorded bytes. Together with `get_saved_response`'s contract this makes
/// every replay byte-identical to the first execution's response.
pub proof fn lemma_replay_fidelity(
    s1: StoreView,
    s2: StoreView,
    actor_id: u128,
    key: Seq<char>,
    recorded: ResponseView,
    later: ResponseView,
)
    requires
        ledger_saved(s1.ledger, actor_id, key, recorded),
        store_evolution(s1, s2),
        ledger_unique(s2.ledger),
        ledger_saved(s2.ledger, actor_id, key, later),
    ensures
        later == recorded,
{
    assert(ledger_saved(s2.ledger, actor_id, key, recorded));
    lemma_saved_unique(s2.ledger, actor_id, key, recorded, later);
}

/// The race end to end: one request claims the key and commits; whatever
/// the other request — or any retry of either — reads for that key after
/// any further store activity is exactly the committed response. Together
/// with at-most-once claiming this is the whole duplicate-submission story:
/// one business write, one recorded response, every observer sees its
/// bytes.
pub proof fn lemma_duplicate_observes_winner(
    s0: StoreView,
    s1: StoreView,
    s2: StoreView,
    s3: StoreView,
    actor_id: u128,
    key: Seq<char>,
    issue_id: u128,
    title: Seq<char>,
    html: Seq<char>,
    plain: Seq<char>,
    resp: ResponseView,
    n1: u64,
    n2: u64,
    later: ResponseView,
)
    requires
        claim_step(s0, s1, actor_id, key, n1, ClaimResult::Started),
        commit_step(s1, s2, actor_id, key, issue_id, title, html, plain, resp, n2, true),
        store_evolution(s2, s3),
        ledger_unique(s3.ledger),
        ledger_saved(s3.ledger, actor_id, key, later),
    ensures
        later == resp,
{
    lemma_commit_records(s1, s2, actor_id, key, issue_id, title, html, plain, resp, n2);
    lemma_replay_fidelity(s2, s3, actor_id, key, resp, later);
}

// ---------------------------------------------------------------------------
// The outbox under the worker
// ---------------------------------------------------------------------------

/// No two queued tasks share an id.
pub open spec fn tasks_unique(outbox: Seq<TaskRowView>) -> bool {
    forall|i: int, j: int|
        0 <= i < j < outbox.len() ==> (#[trigger] outbox[i]).task_id != (
        #[trigger] outbox[j]).task_id
}

/// A dequeued task is locked from that moment on.
pub proof fn lemma_dequeue_locks(pre: StoreView, post: StoreView, l: TaskLeaseView)
    requires
        dequeue_step(pre, post, Some(l)),
    ensures
        task_locked(post.outbox, l.task_id),
{
    let i = choose|i: int|
        {
            &&& #[trigger] first_pending_at(pre.outbox, i)
            &&& crate::store::lease_matches(pre.outbox[i], l)
            &&& post == StoreView {
                outbox: pre.outbox.update(i, TaskRowView { in_progress: true, ..pre.outbox[i] }),
                ..pre
            }
        };
    assert(task_locked_at(post.outbox, l.task_id, i));
}

/// No silent drop: a transient delivery failure never deletes the task. It
/// is released in place — same id, same issue, same recipient, unlocked,
/// one more attempt on record — so a later pass retries it; only success or
/// a permanent classification removes it.
pub proof fn lemma_no_silent_drop(
    pre: StoreView,
    post: StoreView,
    task_id: u64,
    i: int,
)
    requires
        tasks_unique(pre.outbox),
        task_locked_at(pre.outbox, task_id, i),
        finish_step(pre, post, task_id, true),
    ensures
        post.outbox == pre.outbox.update(i, released(pre.outbox[i])),
        post.outbox.len() == pre.outbox.len(),
        post.outbox[i].task_id == task_id,
        post.outbox[i].issue_id == pre.outbox[i].issue_id,
        post.outbox[i].recipient == pre.outbox[i].recipient,
        !post.outbox[i].in_progress,
        pre.outbox[i].attempts < u64::MAX ==> post.outbox[i].attempts == pre.outbox[i].attempts
            + 1,
{
    assert(task_locked(pre.outbox, task_id));
    let j = choose|j: int| #[trigger] task_locked_at(pre.outbox, task_id, j)
        && post == StoreView { outbox: pre.outbox.update(j, released(pre.outbox[j])), ..pre };
    assert(j == i);
}

/// Worker concurrency safety: as long as one worker holds a task — it was
/// dequeued and not yet finished, so its row is still locked — a second
/// dequeue, whatever else happened to the queue in between, hands out a
/// different task. No two workers ever hold the same task.
pub proof fn lemma_no_double_dequeue(
    s0: StoreView,
    s1: StoreView,
    s2: StoreView,
    s3: StoreView,
    l1: TaskLeaseView,
    l2: TaskLeaseView,
)
    requires
        dequeue_step(s0, s1, Some(l1)),
        task_locked(s2.outbox, l1.task_id),
        tasks_unique(s2.outbox),
        dequeue_step(s2, s3, Some(l2)),
    ensures
        l2.task_id != l1.task_id,
{
    if l2.task_id == l1.task_id {
        let m = choose|m: int| task_locked_at(s2.outbox, l1.task_id, m);
        let i = choose|i: int|
            {
                &&& #[trigger] first_pending_at(s2.outbox, i)
                &&& crate::store::lease_matches(s2.outbox[i], l2)
                &&& s3 == StoreView {
                    outbox: s2.outbox.update(
                        i,
                        TaskRowView { in_progress: true, ..s2.outbox[i] },
                    ),
                    ..s2
                }
            };
        assert(s2.outbox[i].task_id == l1.task_id);
        assert(i != m);
        assert(s2.outbox[i].task_id != s2.outbox[m].task_id);
    }
}

} // verus!
