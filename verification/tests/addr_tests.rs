use secmail::addr::{validate_login, LoginError, MailAddr, ParseMailAddrError};

#[test]
fn parse_simple_address() {
    let a = MailAddr::parse("alice@example.com").unwrap();
    assert_eq!(a.login, "alice");
    assert_eq!(a.domain, "example.com");
}

#[test]
fn parse_splits_at_first_at_sign_only() {
    let a = MailAddr::parse("a@b@c").unwrap();
    assert_eq!(a.login, "a");
    assert_eq!(a.domain, "b@c");
}

#[test]
fn parse_missing_at_sign() {
    let e = MailAddr::parse("plaintext").unwrap_err();
    assert_eq!(e, ParseMailAddrError::MissingAtSign);
    let e = MailAddr::parse("").unwrap_err();
    assert_eq!(e, ParseMailAddrError::MissingAtSign);
}

#[test]
fn parse_empty_login() {
    let e = MailAddr::parse("@example.com").unwrap_err();
    assert_eq!(e, ParseMailAddrError::EmptyLogin);
    let e = MailAddr::parse("@").unwrap_err();
    assert_eq!(e, ParseMailAddrError::EmptyLogin);
}

#[test]
fn parse_empty_domain() {
    let e = MailAddr::parse("alice@").unwrap_err();
    assert_eq!(e, ParseMailAddrError::EmptyDomain);
}

#[test]
fn format_then_parse_round_trips() {
    let a = MailAddr { login: "bob".to_string(), domain: "mail.test".to_string() };
    let text = a.to_text();
    assert_eq!(text, "bob@mail.test");
    let b = MailAddr::parse(&text).unwrap();
    assert_eq!(b.login, "bob");
    assert_eq!(b.domain, "mail.test");
}

#[test]
fn round_trip_with_at_in_domain() {
    let a = MailAddr { login: "bob".to_string(), domain: "odd@domain".to_string() };
    let b = MailAddr::parse(&a.to_text()).unwrap();
    assert_eq!(b.login, "bob");
    assert_eq!(b.domain, "odd@domain");
}

#[test]
fn validate_login_accepts_plain_text() {
    assert!(validate_login("alice").is_ok());
    assert!(validate_login("a.b-c_d").is_ok());
}

#[test]
fn validate_login_rejects_empty() {
    assert_eq!(validate_login("").unwrap_err(), LoginError::Empty);
}

#[test]
fn validate_login_rejects_at_sign() {
    assert_eq!(validate_login("ali@ce").unwrap_err(), LoginError::ContainsAtSign);
    assert_eq!(validate_login("@").unwrap_err(), LoginError::ContainsAtSign);
}
