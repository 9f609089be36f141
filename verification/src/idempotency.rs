//! The idempotency ledger's interface: claim a key, replay a saved result,
//! record a result. Claiming and recording are single atomic store
//! operations, so concurrent duplicate submissions are decided by the
//! ledger's uniqueness constraint and nothing else.

use vstd::prelude::*;
use vstd::string::*;
use crate::response::Response;
use crate::store::{
    claim_step, ledger_completed, ledger_has, ledger_saved, save_step, ClaimResult, Store,
};

verus! {

/// Keys of this many characters or more are rejected.
pub const KEY_LENGTH_LIMIT: usize = 50;

/// An acceptable idempotency key: non-empty and under the length limit.
pub open spec fn valid_key(s: Seq<char>) -> bool {
    0 < s.len() < KEY_LENGTH_LIMIT
}

/// A client-chosen opaque token naming one logical command across retries.
pub struct IdempotencyKey(String);

impl IdempotencyKey {
    /// The characters of the key.
    pub closed spec fn spec_str(&self) -> Seq<char> {
        self.0@
    }

    /// Every value of this type passed `parse`.
    pub open spec fn wf(&self) -> bool {
        valid_key(self.spec_str())
    }

    /// Accepts exactly the non-empty keys under the length limit, unchanged.
    pub fn parse(s: String) -> (r: Result<IdempotencyKey, String>)
        ensures
            r is Ok <==> valid_key(s@),
            r is Ok ==> r->Ok_0.spec_str() == s@ && r->Ok_0.wf(),
            s@.len() == 0 ==> (r matches Err(m) && m@ == "The idempotency key cannot be empty"@),
            s@.len() >= KEY_LENGTH_LIMIT ==> (r matches Err(m) && m@
                == "The idempotency key must be shorter than 50 characters"@),
    {
        let n = s.as_str().unicode_len();
        if n == 0 {
            Err("The idempotency key cannot be empty".to_owned())
        } else if n >= KEY_LENGTH_LIMIT {
            Err("The idempotency key must be shorter than 50 characters".to_owned())
        } else {
            Ok(IdempotencyKey(s))
        }
    }

    /// The key as a string.
    pub fn as_string(&self) -> (r: &String)
        ensures
            r@ == self.spec_str(),
    {
        &self.0
    }
}

/// What the command processor does next for a submitted key.
pub enum NextAction {
    /// This request claimed the key: it must execute the command.
    StartProcessing,
    /// The key was completed before: the recorded response, verbatim.
    ReturnSavedResponse(Response),
}

/// The key is claimed by an execution still in flight: its result is not
/// recorded yet, and the caller should retry later.
pub struct ClaimRaceError;

/// Claim the key or replay it: the CLAIMING state of the processor.
///
/// Exactly one of three things happens. The key was free: it is now claimed
/// by this request, which must go on and execute. The key was completed: the
/// recorded response comes back verbatim and the store is untouched. The key
/// was claimed but not completed — a concurrent execution is in flight — and
/// the caller gets a retryable busy error, the store again untouched.
pub fn try_processing(store: &mut Store, key: &IdempotencyKey, actor_id: u128, now: u64) -> (r:
    Result<NextAction, ClaimRaceError>)
    requires
        old(store).wf(),
    ensures
        final(store).wf(),
        match r {
            Ok(NextAction::StartProcessing) => claim_step(
                old(store)@,
                final(store)@,
                actor_id,
                key.spec_str(),
                now,
                ClaimResult::Started,
            ),
            Ok(NextAction::ReturnSavedResponse(resp)) => final(store)@ == old(store)@
                && ledger_saved(old(store)@.ledger, actor_id, key.spec_str(), resp@),
            Err(_) => final(store)@ == old(store)@ && ledger_has(
                old(store)@.ledger,
                actor_id,
                key.spec_str(),
            ) && !ledger_completed(old(store)@.ledger, actor_id, key.spec_str()),
        },
        (r matches Ok(NextAction::StartProcessing)) <==> !ledger_has(
            old(store)@.ledger,
            actor_id,
            key.spec_str(),
        ),
        ledger_completed(old(store)@.ledger, actor_id, key.spec_str()) ==> (r matches Ok(
            NextAction::ReturnSavedResponse(_),
        )),
{
    match store.try_claim(actor_id, key.as_string(), now) {
        ClaimResult::Started => Ok(NextAction::StartProcessing),
        ClaimResult::AlreadyExists => match store.get_saved_response(actor_id, key.as_string()) {
            Some(resp) => Ok(NextAction::ReturnSavedResponse(resp)),
            None => Err(ClaimRaceError),
        },
    }
}

/// The recorded response for a completed key, byte-for-byte; `None` while
/// the key is unclaimed or still in flight.
pub fn get_saved_response(store: &Store, key: &IdempotencyKey, actor_id: u128) -> (r: Option<
    Response,
>)
    requires
        store.wf(),
    ensures
        match r {
            Some(resp) => ledger_saved(store@.ledger, actor_id, key.spec_str(), resp@),
            None => !ledger_completed(store@.ledger, actor_id, key.spec_str()),
        },
{
    store.get_saved_response(actor_id, key.as_string())
}

/// Record the final response under the claimed key. Nothing is written
/// unless the key is claimed and incomplete: a completed record is never
/// overwritten, so replays stay byte-identical forever.
pub fn save_response(store: &mut Store, key: &IdempotencyKey, actor_id: u128, response: &Response)
    -> (saved: bool)
    requires
        old(store).wf(),
    ensures
        final(store).wf(),
        save_step(old(store)@, final(store)@, actor_id, key.spec_str(), response@, saved),
{
    store.save_response(actor_id, key.as_string(), response)
}

} // verus!
