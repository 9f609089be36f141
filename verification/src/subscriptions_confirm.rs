//! Confirming a pending subscription: look the activation token up, then
//! mark the subscriber confirmed. Only confirmed subscribers receive
//! delivery tasks when an issue is published.

use vstd::prelude::*;
use crate::store::{confirm_step, tokens_has, tokens_maps, Store};

verus! {

/// The query parameters of a confirmation request.
pub struct Parameters {
    pub subscription_token: String,
}

/// Why a confirmation failed.
#[derive(Debug)]
pub enum ConfirmError {
    /// No subscriber is associated with this token.
    InvalidTokenError,
    /// Anything unexpected underneath.
    UnexpectedError(String),
}

impl ConfirmError {
    /// The transport status the boundary maps this error to.
    pub fn status_code(&self) -> (c: u16)
        ensures
            c == 400 <==> self is InvalidTokenError,
            c == 500 <==> self is UnexpectedError,
    {
        match self {
            ConfirmError::InvalidTokenError => 400,
            ConfirmError::UnexpectedError(_) => 500,
        }
    }
}

/// Who the activation token belongs to: the subscriber id of the matching
/// token row, if there is one.
pub fn get_subscriber_id_from_token(store: &Store, subscription_token: &String) -> (r: Option<
    u128,
>)
    ensures
        match r {
            Some(id) => tokens_maps(store@.tokens, subscription_token@, id),
            None => !tokens_has(store@.tokens, subscription_token@),
        },
{
    store.get_subscriber_id_from_token(subscription_token)
}

/// Mark the subscriber confirmed, one atomic update.
pub fn confirm_subscriber(store: &mut Store, subscriber_id: u128)
    requires
        old(store).wf(),
    ensures
        final(store).wf(),
        confirm_step(old(store)@, final(store)@, subscriber_id),
{
    store.confirm_subscriber(subscriber_id)
}

/// Handle one confirmation request: an unknown token is rejected and the
/// store left untouched; a known one confirms exactly its subscriber.
pub fn confirm(store: &mut Store, parameters: &Parameters) -> (r: Result<(), ConfirmError>)
    requires
        old(store).wf(),
    ensures
        final(store).wf(),
        (r is Ok) <==> tokens_has(old(store)@.tokens, parameters.subscription_token@),
        r is Err ==> (r matches Err(ConfirmError::InvalidTokenError)) && final(store)@ == old(
            store,
        )@,
        r is Ok ==> (exists|id: u128|
            tokens_maps(old(store)@.tokens, parameters.subscription_token@, id) && confirm_step(
                old(store)@,
                final(store)@,
                id,
            )),
{
    match store.get_subscriber_id_from_token(&parameters.subscription_token) {
        Some(subscriber_id) => {
            store.confirm_subscriber(subscriber_id);
            Ok(())
        },
        None => Err(ConfirmError::InvalidTokenError),
    }
}

} // verus!
