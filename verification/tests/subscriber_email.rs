use zero2prod::domain::SubscriberEmail;

#[test]
fn valid_email_accepted() {
    let email = "user@example.com".to_string();
    assert!(SubscriberEmail::parse(email).is_ok());
}

#[test]
fn empty_string_is_rejected() {
    let email = "".to_string();
    assert!(SubscriberEmail::parse(email).is_err());
}

#[test]
fn missing_at_symbol_is_rejected() {
    let email = "usergmail.com".to_string();
    assert!(SubscriberEmail::parse(email).is_err());
}

#[test]
fn missing_subject_is_rejected() {
    let email = "@gmail.com".to_string();
    assert!(SubscriberEmail::parse(email).is_err());
}

#[test]
fn parse_keeps_the_address_and_reports_the_offender() {
    let ok = SubscriberEmail::parse("user@example.com".to_string()).unwrap();
    assert_eq!(ok.as_str(), "user@example.com");

    let err = SubscriberEmail::parse("not-an-email".to_string()).unwrap_err();
    assert_eq!(err, "`not-an-email` is not a valid email");
}
