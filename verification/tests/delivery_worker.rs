//! The delivery worker scenarios: dequeue-with-lock, retry on transient
//! failure, removal on success or permanent failure, classification and
//! backoff.

use zero2prod::publish::{submit_command, BodyData, SubmitOutcome};
use zero2prod::store::Store;
use zero2prod::subscriptions::{subscribe, FormData};
use zero2prod::subscriptions_confirm::{confirm, Parameters};
use zero2prod::worker::{
    classify_gateway_response, complete_delivery, next_backoff_ms, prepare_send, DeliveryClass,
    GatewayResponse, PrepareOutcome, EMPTY_QUEUE_POLL_MS,
};

const ACTOR: u128 = 11;

fn store_with_published_issue(recipients: &[&str]) -> Store {
    let mut store = Store::new();
    for (i, r) in recipients.iter().enumerate() {
        let form = FormData { email: r.to_string(), name: format!("R{i}") };
        let receipt = subscribe(&mut store, &form, i as u64).expect("subscribe failed");
        confirm(&mut store, &Parameters { subscription_token: receipt.subscription_token })
            .expect("confirm failed");
    }
    let body = BodyData {
        title: "Issue title".to_string(),
        html: "<b>html</b>".to_string(),
        plain: "plain".to_string(),
        idempotency_key: "W1".to_string(),
    };
    match submit_command(&mut store, ACTOR, &body, 1000) {
        SubmitOutcome::Success(_) => {},
        _ => panic!("publish failed"),
    }
    store
}

#[test]
fn transient_failure_keeps_the_task_and_success_removes_it() {
    let mut store = store_with_published_issue(&["r1@example.com"]);
    assert_eq!(store.task_count(), 1);

    // First pass: the gateway answers 500 — transient, the task stays.
    let lease = store.dequeue_task().expect("a task is pending");
    assert_eq!(lease.recipient, "r1@example.com");
    assert_eq!(lease.attempts, 0);
    let class = classify_gateway_response(&GatewayResponse::Status(500));
    assert_eq!(class, DeliveryClass::TransientFailure);
    complete_delivery(&mut store, lease, class);
    assert_eq!(store.task_count(), 1);

    // Second pass: the released task comes back with one attempt on record.
    let lease = store.dequeue_task().expect("the task was retried, not dropped");
    assert_eq!(lease.recipient, "r1@example.com");
    assert_eq!(lease.attempts, 1);
    assert_eq!(next_backoff_ms(lease.attempts), 2000);
    let class = classify_gateway_response(&GatewayResponse::Status(200));
    assert_eq!(class, DeliveryClass::Succeeded);
    complete_delivery(&mut store, lease, class);

    // Delivered: gone for good, and nothing new was queued for it.
    assert_eq!(store.task_count(), 0);
    assert!(store.dequeue_task().is_none());
}

#[test]
fn permanent_failure_drops_the_task_without_retry() {
    let mut store = store_with_published_issue(&["r1@example.com"]);
    let lease = store.dequeue_task().unwrap();
    let class = classify_gateway_response(&GatewayResponse::Status(400));
    assert_eq!(class, DeliveryClass::PermanentFailure);
    complete_delivery(&mut store, lease, class);
    assert_eq!(store.task_count(), 0);
}

#[test]
fn two_workers_never_hold_the_same_task() {
    let mut store = store_with_published_issue(&["a@example.com", "b@example.com"]);
    assert_eq!(store.task_count(), 2);

    // Two worker instances dequeue concurrently: each locks its own row.
    let first = store.dequeue_task().expect("first worker gets a task");
    let second = store.dequeue_task().expect("second worker gets the other");
    assert_ne!(first.task_id, second.task_id);
    assert_ne!(first.recipient, second.recipient);

    // A third instance finds every row locked.
    assert!(store.dequeue_task().is_none());

    // Releasing one on a transient failure makes exactly it available again.
    let released_id = first.task_id;
    complete_delivery(&mut store, first, DeliveryClass::TransientFailure);
    let retry = store.dequeue_task().expect("the released task is available");
    assert_eq!(retry.task_id, released_id);

    complete_delivery(&mut store, retry, DeliveryClass::Succeeded);
    complete_delivery(&mut store, second, DeliveryClass::Succeeded);
    assert_eq!(store.task_count(), 0);
}

#[test]
fn prepare_send_hands_out_the_issue_content_for_a_valid_recipient() {
    let mut store = store_with_published_issue(&["r1@example.com"]);
    let lease = store.dequeue_task().unwrap();
    match prepare_send(&store, &lease) {
        PrepareOutcome::Send(ins) => {
            assert_eq!(ins.recipient.as_str(), "r1@example.com");
            assert_eq!(ins.subject, "Issue title");
            assert_eq!(ins.html, "<b>html</b>");
            assert_eq!(ins.plain, "plain");
        },
        _ => panic!("expected a send instruction"),
    }
}

#[test]
fn gateway_answers_classify_as_documented() {
    assert_eq!(classify_gateway_response(&GatewayResponse::Status(200)), DeliveryClass::Succeeded);
    assert_eq!(classify_gateway_response(&GatewayResponse::Status(303)), DeliveryClass::Succeeded);
    assert_eq!(
        classify_gateway_response(&GatewayResponse::Status(400)),
        DeliveryClass::PermanentFailure
    );
    assert_eq!(
        classify_gateway_response(&GatewayResponse::Status(404)),
        DeliveryClass::PermanentFailure
    );
    assert_eq!(
        classify_gateway_response(&GatewayResponse::Status(500)),
        DeliveryClass::TransientFailure
    );
    assert_eq!(
        classify_gateway_response(&GatewayResponse::Status(503)),
        DeliveryClass::TransientFailure
    );
    assert_eq!(
        classify_gateway_response(&GatewayResponse::TimedOut),
        DeliveryClass::TransientFailure
    );
}

#[test]
fn backoff_doubles_from_a_second_and_caps_at_a_minute() {
    assert_eq!(next_backoff_ms(0), 1000);
    assert_eq!(next_backoff_ms(1), 2000);
    assert_eq!(next_backoff_ms(2), 4000);
    assert_eq!(next_backoff_ms(3), 8000);
    assert_eq!(next_backoff_ms(4), 16000);
    assert_eq!(next_backoff_ms(5), 32000);
    assert_eq!(next_backoff_ms(6), 60000);
    assert_eq!(next_backoff_ms(1000), 60000);
    assert_eq!(EMPTY_QUEUE_POLL_MS, 10000);
}
