//! The delivery worker's decisions: what to send for a dequeued task, how
//! to classify the gateway's answer, and what to do to the queue for each
//! class. The loop itself — waiting, calling the gateway, sleeping — runs
//! outside; every choice it acts on is made and verified here.

use vstd::prelude::*;
use vstd::string::*;
use crate::domain::{is_valid_email, SubscriberEmail};
use crate::store::{finish_step, issue_content_is, issues_has, Store, TaskLease};

verus! {

/// How long a worker sleeps when it finds the queue empty, in milliseconds.
pub const EMPTY_QUEUE_POLL_MS: u64 = 10000;

/// How one delivery attempt ended, as the worker classifies it.
#[derive(Clone, Copy, PartialEq, Eq, Debug)]
pub enum DeliveryClass {
    /// The gateway accepted the send: the task is done for good.
    Succeeded,
    /// A retryable condition — timeout or a server-side failure: the task
    /// must stay queued.
    TransientFailure,
    /// The gateway rejected the request itself, or the recipient address is
    /// malformed: retrying cannot succeed and the task is dropped.
    PermanentFailure,
}

/// What came back from the external email gateway.
#[derive(Clone, Copy, PartialEq, Eq, Debug)]
pub enum GatewayResponse {
    /// An HTTP status code.
    Status(u16),
    /// No answer within the deadline.
    TimedOut,
}

/// Classification of a gateway answer: a timeout and every server-side
/// status are transient, a client-side status is permanent, anything below
/// that is acceptance.
pub open spec fn classify_spec(g: GatewayResponse) -> DeliveryClass {
    match g {
        GatewayResponse::TimedOut => DeliveryClass::TransientFailure,
        GatewayResponse::Status(s) => if s < 400 {
            DeliveryClass::Succeeded
        } else if s < 500 {
            DeliveryClass::PermanentFailure
        } else {
            DeliveryClass::TransientFailure
        },
    }
}

/// Classify what the gateway answered for one send.
pub fn classify_gateway_response(g: &GatewayResponse) -> (c: DeliveryClass)
    ensures
        c == classify_spec(*g),
{
    match g {
        GatewayResponse::TimedOut => DeliveryClass::TransientFailure,
        GatewayResponse::Status(s) => {
            if *s < 400 {
                DeliveryClass::Succeeded
            } else if *s < 500 {
                DeliveryClass::PermanentFailure
            } else {
                DeliveryClass::TransientFailure
            }
        },
    }
}

/// Everything the gateway needs for one send: a validated recipient and the
/// issue's content, its title standing as the subject.
pub struct SendInstruction {
    pub recipient: SubscriberEmail,
    pub subject: String,
    pub html: String,
    pub plain: String,
}

/// What to do with a dequeued task.
pub enum PrepareOutcome {
    /// Deliver: call the gateway with exactly this.
    Send(SendInstruction),
    /// The stored recipient is not a valid address — a permanent failure,
    /// the task is to be dropped.
    InvalidRecipient,
    /// No issue with the task's id exists.
    UnknownIssue,
}

/// Work out what to send for a dequeued task: fetch the issue's content by
/// id and validate the recipient address.
pub fn prepare_send(store: &Store, lease: &TaskLease) -> (r: PrepareOutcome)
    ensures
        match r {
            PrepareOutcome::Send(ins) => is_valid_email(lease.recipient@)
                && ins.recipient.spec_str() == lease.recipient@ && issue_content_is(
                store@.issues,
                lease.issue_id,
                ins.subject@,
                ins.html@,
                ins.plain@,
            ),
            PrepareOutcome::InvalidRecipient => issues_has(store@.issues, lease.issue_id)
                && !is_valid_email(lease.recipient@),
            PrepareOutcome::UnknownIssue => !issues_has(store@.issues, lease.issue_id),
        },
{
    match store.issue_content(lease.issue_id) {
        None => PrepareOutcome::UnknownIssue,
        Some((title, html, text)) => match SubscriberEmail::parse(lease.recipient.clone()) {
            Ok(recipient) => PrepareOutcome::Send(
                SendInstruction { recipient, subject: title, html, plain: text },
            ),
            Err(_) => PrepareOutcome::InvalidRecipient,
        },
    }
}

/// Commit one attempt's outcome to the queue: a transient failure releases
/// the task for a later retry — it is never deleted — while success and
/// permanent failure remove it for good.
pub fn complete_delivery(store: &mut Store, lease: TaskLease, class: DeliveryClass)
    requires
        old(store).wf(),
    ensures
        final(store).wf(),
        finish_step(
            old(store)@,
            final(store)@,
            lease.task_id,
            class is TransientFailure,
        ),
{
    let retry = match class {
        DeliveryClass::TransientFailure => true,
        DeliveryClass::Succeeded => false,
        DeliveryClass::PermanentFailure => false,
    };
    store.finish_delivery(lease, retry)
}

/// The wait before retrying a task that failed this many times already:
/// exponential from one second, capped at one minute.
pub open spec fn backoff_spec(attempts: u64) -> u64 {
    if attempts == 0 {
        1000u64
    } else if attempts == 1 {
        2000u64
    } else if attempts == 2 {
        4000u64
    } else if attempts == 3 {
        8000u64
    } else if attempts == 4 {
        16000u64
    } else if attempts == 5 {
        32000u64
    } else {
        60000u64
    }
}

/// How long to back off before the next pass over a task.
pub fn next_backoff_ms(attempts: u64) -> (ms: u64)
    ensures
        ms == backoff_spec(attempts),
        1000 <= ms <= 60000,
{
    if attempts == 0 {
        1000
    } else if attempts == 1 {
        2000
    } else if attempts == 2 {
        4000
    } else if attempts == 3 {
        8000
    } else if attempts == 4 {
        16000
    } else if attempts == 5 {
        32000
    } else {
        60000
    }
}

} // verus!
