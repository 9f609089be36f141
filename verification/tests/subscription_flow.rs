//! The subscribe and confirm flows, the confirmation email's content, the
//! password policy, error classification, and error-chain rendering.

use zero2prod::password::{validate_password_change, PasswordRejection};
use zero2prod::publish::PublishError;
use zero2prod::response::see_other;
use zero2prod::store::Store;
use zero2prod::subscriptions::{
    build_confirmation_email, error_chain_fmt, generate_subscription_token, subscribe,
    ApplicationBaseUrl, FormData, SubscribeError,
};
use zero2prod::subscriptions_confirm::{
    confirm, get_subscriber_id_from_token, ConfirmError, Parameters,
};

#[test]
fn subscribe_then_confirm_makes_the_recipient_confirmed() {
    let mut store = Store::new();
    let form = FormData { email: "a@example.com".to_string(), name: "A".to_string() };
    let receipt = subscribe(&mut store, &form, 1).expect("subscribe failed");
    assert_eq!(store.subscription_count(), 1);
    assert_eq!(store.confirmed_count(), 0);

    let found = get_subscriber_id_from_token(&store, &receipt.subscription_token);
    assert_eq!(found, Some(receipt.subscriber_id));

    confirm(&mut store, &Parameters { subscription_token: receipt.subscription_token })
        .expect("confirm failed");
    assert_eq!(store.confirmed_count(), 1);
}

#[test]
fn confirmed_subscribers_are_read_in_order_and_revalidated() {
    let mut store = Store::new();
    for (email, confirm_it) in [
        ("first@example.com", true),
        ("second@example.com", false),
        ("third@example.com", true),
    ] {
        let form = FormData { email: email.to_string(), name: "N".to_string() };
        let receipt = subscribe(&mut store, &form, 1).expect("subscribe failed");
        if confirm_it {
            confirm(&mut store, &Parameters { subscription_token: receipt.subscription_token })
                .expect("confirm failed");
        }
    }
    let confirmed = store.get_confirmed_subscribers();
    assert_eq!(confirmed.len(), 2);
    assert_eq!(confirmed[0].as_ref().unwrap().as_str(), "first@example.com");
    assert_eq!(confirmed[1].as_ref().unwrap().as_str(), "third@example.com");
}

#[test]
fn invalid_address_is_rejected_with_its_reason() {
    let mut store = Store::new();
    let form = FormData { email: "nope".to_string(), name: "A".to_string() };
    match subscribe(&mut store, &form, 1) {
        Err(SubscribeError::ValidationError(m)) => {
            assert_eq!(m, "`nope` is not a valid email");
        },
        _ => panic!("expected a validation error"),
    }
    assert_eq!(store.subscription_count(), 0);
}

#[test]
fn duplicate_address_fails_without_partial_writes() {
    let mut store = Store::new();
    let form = FormData { email: "a@example.com".to_string(), name: "A".to_string() };
    subscribe(&mut store, &form, 1).expect("first subscribe failed");
    match subscribe(&mut store, &form, 2) {
        Err(SubscribeError::UnexpectedError) => {},
        _ => panic!("a duplicate address must fail"),
    }
    assert_eq!(store.subscription_count(), 1);
}

#[test]
fn unknown_token_is_rejected_and_changes_nothing() {
    let mut store = Store::new();
    let form = FormData { email: "a@example.com".to_string(), name: "A".to_string() };
    subscribe(&mut store, &form, 1).expect("subscribe failed");

    match confirm(&mut store, &Parameters { subscription_token: "bogus".to_string() }) {
        Err(ConfirmError::InvalidTokenError) => {},
        _ => panic!("an unknown token must be rejected"),
    }
    assert_eq!(store.confirmed_count(), 0);
}

#[test]
fn subscription_tokens_are_long_and_alphanumeric() {
    let t = generate_subscription_token();
    assert_eq!(t.chars().count(), 32);
    assert!(t.chars().all(|c| c.is_ascii_alphanumeric()));
    // Two draws almost surely differ; equality here would mean the
    // generator hands back a constant.
    let u = generate_subscription_token();
    assert_ne!(t, u);
}

#[test]
fn confirmation_email_carries_the_exact_link() {
    let base = ApplicationBaseUrl("https://news.example.com".to_string());
    let token = "tok123".to_string();
    let e = build_confirmation_email(&base, &token);
    assert_eq!(e.subject, "Please confirm your subscription to my Newsletter");
    assert_eq!(
        e.html,
        "Please click the <a href=\"https://news.example.com/subscriptions/confirm?subscription_token=tok123\">link</a> to confirm the subscription."
    );
    assert_eq!(
        e.plain,
        "[PLAIN] Please click the link to confirm your subscription: https://news.example.com/subscriptions/confirm?subscription_token=tok123"
    );
}

#[test]
fn password_policy_checks_length_then_match() {
    let short = "eleven-chars".to_string();
    assert_eq!(short.chars().count(), 12);
    let ok = validate_password_change(&short, &short);
    assert_eq!(ok, None);

    let tiny = "short".to_string();
    assert_eq!(
        validate_password_change(&tiny, &tiny),
        Some(PasswordRejection::InvalidLength)
    );

    let long = "x".repeat(129);
    assert_eq!(
        validate_password_change(&long, &long),
        Some(PasswordRejection::InvalidLength)
    );

    let a = "a-long-enough-password".to_string();
    let b = "another-long-password".to_string();
    assert_eq!(validate_password_change(&a, &b), Some(PasswordRejection::Mismatch));
}

#[test]
fn error_statuses_follow_the_taxonomy() {
    assert_eq!(SubscribeError::ValidationError("x".to_string()).status_code(), 400);
    assert_eq!(SubscribeError::UnexpectedError.status_code(), 500);
    assert_eq!(ConfirmError::InvalidTokenError.status_code(), 400);
    assert_eq!(ConfirmError::UnexpectedError("x".to_string()).status_code(), 500);
}

#[test]
fn publish_error_responses_are_bytewise_fixed() {
    let unexpected = PublishError::UnexpectedError("db down".to_string()).error_response();
    assert_eq!(unexpected.status_code, 500);
    assert!(unexpected.headers.is_empty());
    assert!(unexpected.body.is_empty());

    let auth = PublishError::AuthError("bad credentials".to_string()).error_response();
    assert_eq!(auth.status_code, 401);
    assert_eq!(auth.headers.len(), 1);
    assert_eq!(auth.headers[0].name, "www-authenticate");
    assert_eq!(auth.headers[0].value, b"Basic realm=\"publish\"".to_vec());
    assert!(auth.body.is_empty());
}

#[test]
fn see_other_builds_the_redirect() {
    let r = see_other("/login");
    assert_eq!(r.status_code, 303);
    assert_eq!(r.headers.len(), 1);
    assert_eq!(r.headers[0].name, "location");
    assert_eq!(r.headers[0].value, b"/login".to_vec());
    assert!(r.body.is_empty());
}

#[test]
fn error_chains_render_outermost_first() {
    let msg = "Failed to store newsletter issue details".to_string();
    let causes = vec!["connection reset".to_string(), "broken pipe".to_string()];
    let rendered = error_chain_fmt(&msg, &causes);
    assert_eq!(
        rendered,
        "Failed to store newsletter issue details\n\nCaused by:\n\tconnection reset\nCaused by:\n\tbroken pipe\n"
    );

    let bare = error_chain_fmt(&"boom".to_string(), &Vec::new());
    assert_eq!(bare, "boom\n\n");
}
