//! The publish scenarios: first execution, byte-identical replay, a
//! concurrent duplicate, and validation of the idempotency key.

use zero2prod::idempotency::{try_processing, IdempotencyKey, NextAction};
use zero2prod::publish::{submit_command, submit_command_with_id, BodyData, SubmitOutcome};
use zero2prod::response::{see_other, Response};
use zero2prod::store::Store;
use zero2prod::subscriptions::{subscribe, FormData};
use zero2prod::subscriptions_confirm::{confirm, Parameters};

const ACTOR: u128 = 7;

fn body(key: &str) -> BodyData {
    BodyData {
        title: "T".to_string(),
        html: "H".to_string(),
        plain: "P".to_string(),
        idempotency_key: key.to_string(),
    }
}

fn responses_equal(a: &Response, b: &Response) -> bool {
    if a.status_code != b.status_code || a.headers.len() != b.headers.len() || a.body != b.body {
        return false;
    }
    for (x, y) in a.headers.iter().zip(b.headers.iter()) {
        if x.name != y.name || x.value != y.value {
            return false;
        }
    }
    true
}

/// Subscribe and confirm `n` recipients.
fn confirmed_recipients(store: &mut Store, n: usize) {
    for i in 0..n {
        let form = FormData {
            email: format!("user{i}@example.com"),
            name: format!("User {i}"),
        };
        let receipt = subscribe(store, &form, 100 + i as u64).expect("subscribe failed");
        let params = Parameters { subscription_token: receipt.subscription_token };
        confirm(store, &params).expect("confirm failed");
    }
}

#[test]
fn first_publish_writes_one_issue_and_one_task_per_confirmed_recipient() {
    let mut store = Store::new();
    confirmed_recipients(&mut store, 3);

    let outcome = submit_command(&mut store, ACTOR, &body("K1"), 1000);
    let response = match outcome {
        SubmitOutcome::Success(r) => r,
        _ => panic!("expected success"),
    };
    assert_eq!(response.status_code, 303);
    assert_eq!(response.headers.len(), 1);
    assert_eq!(response.headers[0].name, "location");
    assert_eq!(response.headers[0].value, b"/admin/newsletter".to_vec());
    assert!(response.body.is_empty());

    assert_eq!(store.issue_count(), 1);
    assert_eq!(store.task_count(), 3);
    assert_eq!(store.ledger_count(), 1);
}

#[test]
fn replay_returns_identical_response_and_no_new_side_effects() {
    let mut store = Store::new();
    confirmed_recipients(&mut store, 3);

    let first = match submit_command(&mut store, ACTOR, &body("K1"), 1000) {
        SubmitOutcome::Success(r) => r,
        _ => panic!("expected success"),
    };
    let replay = match submit_command(&mut store, ACTOR, &body("K1"), 2000) {
        SubmitOutcome::Success(r) => r,
        _ => panic!("expected replayed success"),
    };
    assert!(responses_equal(&first, &replay));
    assert_eq!(store.issue_count(), 1);
    assert_eq!(store.task_count(), 3);
    assert_eq!(store.ledger_count(), 1);
}

#[test]
fn concurrent_duplicate_executes_once_and_both_see_one_response() {
    let mut store = Store::new();
    confirmed_recipients(&mut store, 2);

    // Request one claims the key and is suspended before its transaction.
    let key = IdempotencyKey::parse("K2".to_string()).unwrap();
    match try_processing(&mut store, &key, ACTOR, 1000) {
        Ok(NextAction::StartProcessing) => {},
        _ => panic!("the first claim must start processing"),
    }

    // Request two, racing on the same key, loses the claim and must not
    // execute: it sees the in-flight condition.
    match submit_command(&mut store, ACTOR, &body("K2"), 1001) {
        SubmitOutcome::ClaimRace => {},
        _ => panic!("the racing duplicate must observe the claim race"),
    }
    assert_eq!(store.issue_count(), 0);
    assert_eq!(store.task_count(), 0);

    // Request one commits its transaction and records the response.
    let response = see_other("/admin/newsletter");
    let committed = store.commit_publish(
        ACTOR,
        &"K2".to_string(),
        42,
        &"T".to_string(),
        &"H".to_string(),
        &"P".to_string(),
        &response,
        1002,
    );
    assert!(committed);
    assert_eq!(store.issue_count(), 1);
    assert_eq!(store.task_count(), 2);

    // Request two retries and replays the very same response.
    let replay = match submit_command(&mut store, ACTOR, &body("K2"), 1003) {
        SubmitOutcome::Success(r) => r,
        _ => panic!("the retry must replay"),
    };
    assert!(responses_equal(&response, &replay));
    assert_eq!(store.issue_count(), 1);
    assert_eq!(store.task_count(), 2);
}

#[test]
fn publish_without_confirmed_recipients_queues_nothing() {
    let mut store = Store::new();
    // One subscriber, never confirmed.
    let form = FormData { email: "pending@example.com".to_string(), name: "P".to_string() };
    subscribe(&mut store, &form, 1).expect("subscribe failed");

    match submit_command(&mut store, ACTOR, &body("K3"), 1000) {
        SubmitOutcome::Success(_) => {},
        _ => panic!("expected success"),
    }
    assert_eq!(store.issue_count(), 1);
    assert_eq!(store.task_count(), 0);
}

#[test]
fn empty_idempotency_key_is_rejected_before_any_write() {
    let mut store = Store::new();
    match submit_command(&mut store, ACTOR, &body(""), 1000) {
        SubmitOutcome::ValidationError(m) => {
            assert_eq!(m, "The idempotency key cannot be empty");
        },
        _ => panic!("expected a validation error"),
    }
    assert_eq!(store.ledger_count(), 0);
    assert_eq!(store.issue_count(), 0);
}

#[test]
fn overlong_idempotency_key_is_rejected() {
    let mut store = Store::new();
    let long = "k".repeat(50);
    match submit_command(&mut store, ACTOR, &body(&long), 1000) {
        SubmitOutcome::ValidationError(m) => {
            assert_eq!(m, "The idempotency key must be shorter than 50 characters");
        },
        _ => panic!("expected a validation error"),
    }
    assert_eq!(store.ledger_count(), 0);

    let just_fits = "k".repeat(49);
    match submit_command(&mut store, ACTOR, &body(&just_fits), 1000) {
        SubmitOutcome::Success(_) => {},
        _ => panic!("a 49-character key is acceptable"),
    }
}

#[test]
fn different_actors_may_reuse_a_key() {
    let mut store = Store::new();
    confirmed_recipients(&mut store, 1);

    match submit_command(&mut store, 1, &body("K"), 10) {
        SubmitOutcome::Success(_) => {},
        _ => panic!("expected success"),
    }
    match submit_command(&mut store, 2, &body("K"), 20) {
        SubmitOutcome::Success(_) => {},
        _ => panic!("a different actor's key is independent"),
    }
    assert_eq!(store.issue_count(), 2);
    assert_eq!(store.ledger_count(), 2);
}

#[test]
fn failed_transaction_rolls_back_the_claim_and_the_retry_reexecutes() {
    let mut store = Store::new();
    confirmed_recipients(&mut store, 1);

    // A first publish commits issue id 42 under its own key.
    match submit_command_with_id(&mut store, ACTOR, &body("K6"), 42, 10) {
        SubmitOutcome::Success(_) => {},
        _ => panic!("expected success"),
    }
    assert_eq!(store.ledger_count(), 1);

    // A publish of a fresh key whose drawn issue id collides: the business
    // transaction fails and rolls back whole — no issue, no tasks, and no
    // claim left behind.
    match submit_command_with_id(&mut store, ACTOR, &body("K7"), 42, 20) {
        SubmitOutcome::TransactionFailure => {},
        _ => panic!("a colliding issue id must fail the transaction"),
    }
    assert_eq!(store.ledger_count(), 1);
    assert_eq!(store.issue_count(), 1);
    assert_eq!(store.task_count(), 1);

    // The retry with the same key re-attempts the work, not a replay of the
    // failure, and succeeds with a fresh id.
    match submit_command_with_id(&mut store, ACTOR, &body("K7"), 43, 30) {
        SubmitOutcome::Success(_) => {},
        _ => panic!("the retried key must re-execute"),
    }
    assert_eq!(store.ledger_count(), 2);
    assert_eq!(store.issue_count(), 2);
    assert_eq!(store.task_count(), 2);
}

#[test]
fn the_transaction_refuses_an_unclaimed_or_completed_key() {
    let mut store = Store::new();
    confirmed_recipients(&mut store, 1);

    // No claim was taken for this key: the commit must roll back.
    let response = see_other("/admin/newsletter");
    let committed = store.commit_publish(
        ACTOR,
        &"never-claimed".to_string(),
        1,
        &"T".to_string(),
        &"H".to_string(),
        &"P".to_string(),
        &response,
        10,
    );
    assert!(!committed);
    assert_eq!(store.issue_count(), 0);
    assert_eq!(store.task_count(), 0);

    // After a full publish the key is completed: a second commit — a lost
    // racer that somehow reached EXECUTING — is refused and writes nothing.
    match submit_command(&mut store, ACTOR, &body("K8"), 20) {
        SubmitOutcome::Success(_) => {},
        _ => panic!("expected success"),
    }
    let committed = store.commit_publish(
        ACTOR,
        &"K8".to_string(),
        2,
        &"T".to_string(),
        &"H".to_string(),
        &"P".to_string(),
        &response,
        30,
    );
    assert!(!committed);
    assert_eq!(store.issue_count(), 1);
    assert_eq!(store.task_count(), 1);
}

#[test]
fn saved_response_is_never_overwritten() {
    let mut store = Store::new();
    let key = IdempotencyKey::parse("K9".to_string()).unwrap();

    // Nothing is saved for an unclaimed key.
    let probe = see_other("/elsewhere");
    assert!(!zero2prod::idempotency::save_response(&mut store, &key, ACTOR, &probe));
    assert!(zero2prod::idempotency::get_saved_response(&store, &key, ACTOR).is_none());

    match try_processing(&mut store, &key, ACTOR, 5) {
        Ok(NextAction::StartProcessing) => {},
        _ => panic!("fresh key must start processing"),
    }
    // Claimed but incomplete: still nothing to replay.
    assert!(zero2prod::idempotency::get_saved_response(&store, &key, ACTOR).is_none());

    let first = see_other("/first");
    assert!(zero2prod::idempotency::save_response(&mut store, &key, ACTOR, &first));

    // A second write is refused and the recorded bytes stay.
    let second = see_other("/second");
    assert!(!zero2prod::idempotency::save_response(&mut store, &key, ACTOR, &second));
    let got = zero2prod::idempotency::get_saved_response(&store, &key, ACTOR).unwrap();
    assert!(responses_equal(&first, &got));
}
