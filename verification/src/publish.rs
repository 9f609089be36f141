//! The command processor for "publish a newsletter issue".
//!
//! Per request the flow is CLAIMING, then REPLAY or EXECUTING, then DONE or
//! FAILED: claim the idempotency key, and either replay the recorded
//! response verbatim or run the business transaction — persist the issue,
//! enqueue one delivery task per confirmed subscriber, record the response —
//! as one atomic commit. The outcome is semantic; mapping it onto a
//! transport status code is the boundary's business.

use vstd::prelude::*;
use vstd::string::*;
use crate::idempotency::{
    try_processing, valid_key, ClaimRaceError, IdempotencyKey, NextAction, KEY_LENGTH_LIMIT,
};
use crate::ids::fresh_id;
use crate::response::{see_other, Response, ResponseView};
use crate::store::{
    count_confirmed, delivery_tasks, issues_has, ledger_completed, ledger_has, ledger_index_of,
    ledger_saved, row_match, IssueRowView, LedgerRowView, Store, StoreView,
};

verus! {

/// The payload of the publish command, with the idempotency key the client
/// chose for it.
pub struct BodyData {
    pub title: String,
    pub html: String,
    pub plain: String,
    pub idempotency_key: String,
}

/// Route-level failure of the publish endpoint, with its cause.
pub enum PublishError {
    /// The caller could not be authenticated.
    AuthError(String),
    /// Anything unexpected underneath.
    UnexpectedError(String),
}

/// The `www-authenticate` challenge value sent on an authentication failure.
pub open spec fn auth_challenge_bytes() -> Seq<u8> {
    "Basic realm=\"publish\"".spec_bytes()
}

impl PublishError {
    /// The response the boundary sends for this error: a bare 500, or a 401
    /// carrying the `www-authenticate` challenge.
    pub fn error_response(&self) -> (r: Response)
        ensures
            match self {
                PublishError::UnexpectedError(_) => r@ == (ResponseView {
                    status_code: 500,
                    headers: Seq::empty(),
                    body: Seq::empty(),
                }),
                PublishError::AuthError(_) => r@ == (ResponseView {
                    status_code: 401,
                    headers: seq![("www-authenticate"@, auth_challenge_bytes())],
                    body: Seq::empty(),
                }),
            },
    {
        match self {
            PublishError::UnexpectedError(_) => {
                let r = Response { status_code: 500, headers: Vec::new(), body: Vec::new() };
                proof {
                    assert(r@ =~~= (ResponseView {
                        status_code: 500,
                        headers: Seq::empty(),
                        body: Seq::empty(),
                    }));
                }
                r
            },
            PublishError::AuthError(_) => {
                let name = "www-authenticate".to_owned();
                let value = "Basic realm=\"publish\"".as_bytes_vec();
                let mut headers = Vec::new();
                headers.push(crate::response::HeaderPairRecord { name, value });
                let r = Response { status_code: 401, headers, body: Vec::new() };
                proof {
                    assert(r@ =~~= (ResponseView {
                        status_code: 401,
                        headers: seq![("www-authenticate"@, auth_challenge_bytes())],
                        body: Seq::empty(),
                    }));
                }
                r
            },
        }
    }
}

/// The semantic outcome of a submitted command.
pub enum SubmitOutcome {
    /// Executed now or replayed: the response, byte-for-byte the same on
    /// every later replay.
    Success(Response),
    /// The input was rejected before anything was written; carries the
    /// reason.
    ValidationError(String),
    /// Another execution of the same key is in flight: transient, retry.
    ClaimRace,
    /// The business transaction rolled back, claim included: nothing was
    /// written, and a retry with the same key re-attempts.
    TransactionFailure,
}

/// The response a successful publish records and returns: the redirect back
/// to the newsletter form.
pub open spec fn publish_redirect() -> ResponseView {
    ResponseView {
        status_code: 303,
        headers: seq![("location"@, "/admin/newsletter".spec_bytes())],
        body: Seq::empty(),
    }
}

/// The store after a first, successful execution: the completed ledger row,
/// the issue, and its delivery tasks all appear together.
pub open spec fn publish_committed(
    pre: StoreView,
    post: StoreView,
    actor_id: u128,
    key: Seq<char>,
    issue_id: u128,
    title: Seq<char>,
    html: Seq<char>,
    plain: Seq<char>,
    resp: ResponseView,
    now: u64,
) -> bool {
    &&& post.ledger == pre.ledger.push(
        LedgerRowView { actor_id, idempotency_key: key, created_at: now, response: Some(resp) },
    )
    &&& post.issues == pre.issues.push(
        IssueRowView {
            issue_id,
            author_id: actor_id,
            title,
            text_content: plain,
            html_content: html,
            published_at: now,
        },
    )
    &&& post.outbox == pre.outbox + delivery_tasks(pre.subscriptions, issue_id, pre.next_task_id)
    &&& post.subscriptions == pre.subscriptions
    &&& post.tokens == pre.tokens
    &&& post.next_task_id == pre.next_task_id + count_confirmed(pre.subscriptions)
}

/// The flash message shown when a publish has been accepted.
pub fn success_message() -> (m: String)
    ensures
        m@ == "The newsletter issue has been accepted - emails will go out shortly!"@,
{
    "The newsletter issue has been accepted - emails will go out shortly!".to_owned()
}

/// The whole contract of one submission, for a given fresh issue id.
pub open spec fn submit_outcome_spec(
    pre: StoreView,
    post: StoreView,
    actor_id: u128,
    k: Seq<char>,
    issue_id: u128,
    title: Seq<char>,
    html: Seq<char>,
    plain: Seq<char>,
    now: u64,
    r: SubmitOutcome,
) -> bool {
    &&& ((r is ValidationError) <==> !valid_key(k))
    &&& (r is ValidationError ==> post == pre)
    &&& (r matches SubmitOutcome::ValidationError(m) ==> (k.len() == 0 ==> m@
        == "The idempotency key cannot be empty"@) && (k.len() >= KEY_LENGTH_LIMIT ==> m@
        == "The idempotency key must be shorter than 50 characters"@))
    &&& (valid_key(k) && ledger_completed(pre.ledger, actor_id, k) ==> (r matches
    SubmitOutcome::Success(resp) && post == pre && ledger_saved(pre.ledger, actor_id, k, resp@)))
    &&& ((r is ClaimRace) <==> valid_key(k) && ledger_has(pre.ledger, actor_id, k)
        && !ledger_completed(pre.ledger, actor_id, k))
    &&& (r is ClaimRace ==> post == pre)
    &&& (valid_key(k) && !ledger_has(pre.ledger, actor_id, k) ==> {
        if !issues_has(pre.issues, issue_id) && pre.next_task_id + count_confirmed(
            pre.subscriptions,
        ) <= u64::MAX {
            r matches SubmitOutcome::Success(resp) && resp@ == publish_redirect()
                && publish_committed(pre, post, actor_id, k, issue_id, title, html, plain, resp@, now)
        } else {
            r is TransactionFailure && post == pre
        }
    })
}

/// One submission of the publish command, with the issue id to use on a
/// first execution passed in. Deterministic: the outcome is fixed by the
/// store, the payload and the id.
///
/// An invalid key is rejected before anything is written. A completed key
/// replays the recorded response verbatim, with no new side effects. A
/// claimed-but-incomplete key reports the in-flight race. A free key is
/// claimed and the business transaction runs: on commit the caller gets the
/// redirect response just recorded; if the transaction cannot commit it
/// rolls back whole, claim included, so a retry with the same key
/// re-attempts the work instead of replaying a failure.
pub fn submit_command_with_id(
    store: &mut Store,
    actor_id: u128,
    body: &BodyData,
    issue_id: u128,
    now: u64,
) -> (r: SubmitOutcome)
    requires
        old(store).wf(),
    ensures
        final(store).wf(),
        submit_outcome_spec(
            old(store)@,
            final(store)@,
            actor_id,
            body.idempotency_key@,
            issue_id,
            body.title@,
            body.html@,
            body.plain@,
            now,
            r,
        ),
{
    let ghost pre = store@;
    let ghost k = body.idempotency_key@;
    let key = match IdempotencyKey::parse(body.idempotency_key.clone()) {
        Ok(key) => key,
        Err(m) => {
            return SubmitOutcome::ValidationError(m);
        },
    };
    match try_processing(store, &key, actor_id, now) {
        Err(ClaimRaceError {  }) => SubmitOutcome::ClaimRace,
        Ok(NextAction::ReturnSavedResponse(resp)) => {
            proof {
                assert(ledger_completed(pre.ledger, actor_id, k)) by {
                    let i = choose|i: int|
                        0 <= i < pre.ledger.len() && row_match(#[trigger] pre.ledger[i], actor_id, k)
                            && pre.ledger[i].response == Some(resp@);
                    assert(row_match(pre.ledger[i], actor_id, k) && pre.ledger[i].response is Some);
                }
            }
            SubmitOutcome::Success(resp)
        },
        Ok(NextAction::StartProcessing) => {
            let ghost mid = store@;
            proof {
                assert(mid == (StoreView {
                    ledger: pre.ledger.push(
                        LedgerRowView {
                            actor_id,
                            idempotency_key: k,
                            created_at: now,
                            response: None::<ResponseView>,
                        },
                    ),
                    ..pre
                }));
            }
            let response = see_other("/admin/newsletter");
            proof {
                assert(response@ =~~= publish_redirect());
            }
            let committed = store.commit_publish(
                actor_id,
                key.as_string(),
                issue_id,
                &body.title,
                &body.html,
                &body.plain,
                &response,
                now,
            );
            proof {
                // The claim's row is the only one matching the key.
                assert(row_match(mid.ledger[pre.ledger.len() as int], actor_id, k));
                assert(ledger_has(mid.ledger, actor_id, k));
                assert(!ledger_completed(mid.ledger, actor_id, k)) by {
                    if ledger_completed(mid.ledger, actor_id, k) {
                        let j = choose|j: int|
                            0 <= j < mid.ledger.len() && row_match(#[trigger] mid.ledger[j], actor_id, k)
                                && mid.ledger[j].response is Some;
                        if j < pre.ledger.len() {
                            assert(mid.ledger[j] == pre.ledger[j]);
                            assert(ledger_has(pre.ledger, actor_id, k));
                        }
                    }
                }
            }
            if committed {
                proof {
                    let post = store@;
                    let li = ledger_index_of(mid.ledger, actor_id, k);
                    assert(0 <= li < mid.ledger.len() && row_match(mid.ledger[li], actor_id, k));
                    if li < pre.ledger.len() {
                        assert(mid.ledger[li] == pre.ledger[li]);
                        assert(ledger_has(pre.ledger, actor_id, k));
                    }
                    assert(li == pre.ledger.len());
                    assert(mid.ledger[li] == (LedgerRowView {
                        actor_id,
                        idempotency_key: k,
                        created_at: now,
                        response: None::<ResponseView>,
                    }));
                    assert(post.ledger =~= pre.ledger.push(
                        LedgerRowView {
                            actor_id,
                            idempotency_key: k,
                            created_at: now,
                            response: Some(response@),
                        },
                    ));
                    assert(publish_committed(
                        pre,
                        post,
                        actor_id,
                        k,
                        issue_id,
                        body.title@,
                        body.html@,
                        body.plain@,
                        response@,
                        now,
                    ));
                }
                SubmitOutcome::Success(response)
            } else {
                proof {
                    assert(store@ == mid);
                }
                // The business transaction failed: it rolls back whole, the
                // claim insert included, leaving the store as it was.
                store.rollback_claim(actor_id, key.as_string());
                proof {
                    let post = store@;
                    let li = ledger_index_of(mid.ledger, actor_id, k);
                    assert(0 <= li < mid.ledger.len() && row_match(mid.ledger[li], actor_id, k));
                    if li < pre.ledger.len() {
                        assert(mid.ledger[li] == pre.ledger[li]);
                        assert(ledger_has(pre.ledger, actor_id, k));
                    }
                    assert(li == pre.ledger.len());
                    assert(post.ledger =~= pre.ledger);
                    assert(post == pre);
                }
                SubmitOutcome::TransactionFailure
            }
        },
    }
}

/// One submission of the publish command, as the endpoint runs it: a fresh
/// issue id is drawn and the command executes at most once for the key.
///
/// Everything that does not depend on the drawn id is promised exactly as
/// for [`submit_command_with_id`]; on a first execution the issue id is
/// whatever was drawn, so the commit is promised up to that id. A
/// transaction failure can only come from the drawn id colliding or the
/// task counter overflowing — with no committed issues and room in the
/// counter, success is owed — and it leaves the store untouched, so the
/// retry re-attempts.
pub fn submit_command(store: &mut Store, actor_id: u128, body: &BodyData, now: u64) -> (r:
    SubmitOutcome)
    requires
        old(store).wf(),
    ensures
        final(store).wf(),
        ({
            let pre = old(store)@;
            let post = final(store)@;
            let k = body.idempotency_key@;
            &&& ((r is ValidationError) <==> !valid_key(k))
            &&& (r is ValidationError ==> post == pre)
            &&& (valid_key(k) && ledger_completed(pre.ledger, actor_id, k) ==> (r matches
            SubmitOutcome::Success(resp) && post == pre && ledger_saved(
                pre.ledger,
                actor_id,
                k,
                resp@,
            )))
            &&& ((r is ClaimRace) <==> valid_key(k) && ledger_has(pre.ledger, actor_id, k)
                && !ledger_completed(pre.ledger, actor_id, k))
            &&& (r is ClaimRace ==> post == pre)
            &&& (r is TransactionFailure ==> post == pre)
            &&& (r is TransactionFailure ==> pre.issues.len() > 0 || pre.next_task_id
                + count_confirmed(pre.subscriptions) > u64::MAX)
            &&& (valid_key(k) && !ledger_has(pre.ledger, actor_id, k) ==> ((r matches
            SubmitOutcome::Success(resp) && resp@ == publish_redirect() && (exists|iid: u128|
                publish_committed(
                    pre,
                    post,
                    actor_id,
                    k,
                    iid,
                    body.title@,
                    body.html@,
                    body.plain@,
                    resp@,
                    now,
                ))) || (r is TransactionFailure)))
        }),
{
    let ghost pre = store@;
    let issue_id = fresh_id();
    let r = submit_command_with_id(store, actor_id, body, issue_id, now);
    proof {
        if r is TransactionFailure {
            assert(issues_has(pre.issues, issue_id) || pre.next_task_id + count_confirmed(
                pre.subscriptions,
            ) > u64::MAX);
            if issues_has(pre.issues, issue_id) {
                let w = choose|i: int|
                    0 <= i < pre.issues.len() && (#[trigger] pre.issues[i]).issue_id == issue_id;
                assert(pre.issues.len() > 0);
            }
        }
    }
    r
}

} // verus!
