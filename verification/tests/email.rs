use emailpipe::email::Email;

#[test]
fn plain_address_parses() {
    let e = Email::try_from("bob@example.com").unwrap();
    assert_eq!(e.user, "bob");
    assert_eq!(e.domain, "example.com");
}

#[test]
fn bracketed_address_parses() {
    let e = Email::try_from("<bob@example.com>").unwrap();
    assert_eq!(e.user, "bob");
    assert_eq!(e.domain, "example.com");
}

#[test]
fn open_bracket_only_parses() {
    let e = Email::try_from("<bob@example.com").unwrap();
    assert_eq!(e.user, "bob");
    assert_eq!(e.domain, "example.com");
}

#[test]
fn mailbox_name_as_user_parses() {
    let e = Email::try_from("<a1b2.c3d4>").err();
    assert!(e.is_some(), "no domain part, must fail");
    let e = Email::try_from("<a1b2.c3d4@emailpipe.sh>").unwrap();
    assert_eq!(e.user, "a1b2.c3d4");
    assert_eq!(e.domain, "emailpipe.sh");
}

#[test]
fn empty_input_fails() {
    assert_eq!(
        Email::try_from("").err(),
        Some("First char was empty, unable to make Email")
    );
}

#[test]
fn missing_at_fails() {
    assert_eq!(
        Email::try_from("bob").err(),
        Some("Unable to parse user or domain for Email")
    );
}

#[test]
fn empty_domain_fails() {
    assert!(Email::try_from("bob@").is_err());
    assert!(Email::try_from("<bob@>").is_err());
}

#[test]
fn empty_user_fails() {
    assert!(Email::try_from("<@example.com>").is_err());
}

#[test]
fn domain_stops_at_closing_bracket() {
    let e = Email::try_from("bob@example.com>junk").unwrap();
    assert_eq!(e.domain, "example.com");
}
