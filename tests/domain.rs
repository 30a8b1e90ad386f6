use newsletter::domain::{forbidden_in_name, white_space, MAX_NAME_LENGTH};
use newsletter::{Field, NewSubscriber, SubscriberEmail, SubscriberName, ValidationError, Violation};

#[test]
fn domain_empty_string_is_rejected() {
    assert!(SubscriberEmail::parse(String::new()).is_err());
    assert_eq!(SubscriberName::parse(String::new()).unwrap_err(), ValidationError::TooShort);
}

#[test]
fn email_missing_at_symbol_is_rejected() {
    let email = "ursuladomain.com".to_string();
    assert_eq!(SubscriberEmail::parse(email).unwrap_err(), ValidationError::InvalidFormat);
}

#[test]
fn email_missing_subject_is_rejected() {
    let email = "@domain.com".to_string();
    assert_eq!(SubscriberEmail::parse(email).unwrap_err(), ValidationError::InvalidFormat);
}

#[test]
fn a_256_grapheme_long_name_is_valid() {
    let name = "a".repeat(256);
    let parsed = SubscriberName::parse(name.clone()).unwrap();
    assert_eq!(parsed.as_ref(), name);
}

#[test]
fn name_longer_than_256_graphemes_is_rejected() {
    let name = "a".repeat(257);
    assert_eq!(SubscriberName::parse(name).unwrap_err(), ValidationError::TooLong);
}

#[test]
fn whitespace_only_names_are_rejected() {
    let name = " ".to_string();
    assert_eq!(SubscriberName::parse(name).unwrap_err(), ValidationError::BlankContent);
}

#[test]
fn names_containing_an_invalid_character_are_rejected() {
    for name in &['/', '(', ')', '"', '<', '>', '\\', '{', '}'] {
        let name = name.to_string();
        assert_eq!(SubscriberName::parse(name).unwrap_err(), ValidationError::ForbiddenCharacter);
    }
}

#[test]
fn valid_name_is_parsed_successfully() {
    let name = "Ursula Le Guin".to_string();
    assert_eq!(SubscriberName::parse(name).unwrap().as_ref(), "Ursula Le Guin");
}

#[test]
fn name_length_counts_characters_not_bytes() {
    let name = "é".repeat(MAX_NAME_LENGTH);
    assert!(name.len() > MAX_NAME_LENGTH);
    assert!(SubscriberName::parse(name).is_ok());
    assert!(SubscriberName::parse("é".repeat(MAX_NAME_LENGTH + 1)).is_err());
}

#[test]
fn inner_whitespace_is_kept() {
    let name = "  le   guin\t".to_string();
    assert_eq!(SubscriberName::parse(name.clone()).unwrap().as_ref(), name);
}

#[test]
fn unicode_whitespace_only_names_are_rejected() {
    let name = "\u{a0}\u{2003}\t\n".to_string();
    assert_eq!(SubscriberName::parse(name).unwrap_err(), ValidationError::BlankContent);
}

#[test]
fn forbidden_character_inside_a_name_is_rejected() {
    let name = "Ursula {Le} Guin".to_string();
    assert_eq!(SubscriberName::parse(name).unwrap_err(), ValidationError::ForbiddenCharacter);
}

#[test]
fn valid_email_is_kept_unchanged() {
    let email = "Ursula_Le_Guin@Gmail.com".to_string();
    assert_eq!(SubscriberEmail::parse(email).unwrap().as_ref(), "Ursula_Le_Guin@Gmail.com");
}

#[test]
fn email_without_dot_in_domain_is_rejected() {
    assert!(SubscriberEmail::parse("ursula@localhost".to_string()).is_err());
}

#[test]
fn email_refused_by_the_address_grammar_is_rejected() {
    assert!(SubscriberEmail::parse("ursula le guin@gmail.com".to_string()).is_err());
    assert!(SubscriberEmail::parse("ursula@-gmail.com".to_string()).is_err());
}

#[test]
fn several_shaped_addresses_are_accepted() {
    for email in ["a@b.co", "first.last@example.org", "x+tag@sub.domain.net"] {
        assert!(SubscriberEmail::parse(email.to_string()).is_ok(), "{email}");
    }
}

#[test]
fn new_subscriber_keeps_both_fields() {
    let s = NewSubscriber::try_from("le guin".to_string(), "ursula_le_guin@gmail.com".to_string())
        .unwrap();
    assert_eq!(s.name.as_ref(), "le guin");
    assert_eq!(s.email.as_ref(), "ursula_le_guin@gmail.com");
}

#[test]
fn new_subscriber_reports_every_broken_rule() {
    let e = NewSubscriber::try_from(" ".to_string(), "not-an-email".to_string()).unwrap_err();
    assert_eq!(
        e.violations,
        vec![
            Violation { field: Field::Name, error: ValidationError::BlankContent },
            Violation { field: Field::Email, error: ValidationError::InvalidFormat },
        ]
    );
    assert_eq!(
        e.message(),
        "name: must not be all whitespace, email: must be a valid email address"
    );
}

#[test]
fn new_subscriber_reports_only_the_email() {
    let e = NewSubscriber::try_from("le guin".to_string(), String::new()).unwrap_err();
    assert_eq!(
        e.violations,
        vec![Violation { field: Field::Email, error: ValidationError::InvalidFormat }]
    );
}

#[test]
fn every_reason_is_worded() {
    assert_eq!(ValidationError::TooShort.reason(), "must not be empty");
    assert_eq!(ValidationError::TooLong.reason(), "must be at most 256 characters long");
    assert_eq!(
        ValidationError::ForbiddenCharacter.reason(),
        "may not contain any of the following characters: /, (, ), \", <, >, \\, {, }"
    );
    assert_eq!(Field::Email.label(), "email");
}

#[test]
fn white_space_agrees_with_std_on_every_char() {
    for u in 0u32..=0x10FFFF {
        if let Some(c) = char::from_u32(u) {
            assert_eq!(white_space(c), c.is_whitespace(), "U+{u:04X}");
        }
    }
}

#[test]
fn forbidden_characters_are_exactly_nine() {
    let forbidden: Vec<char> = (0u32..0x80).filter_map(char::from_u32).filter(|c| forbidden_in_name(*c)).collect();
    assert_eq!(forbidden, vec!['"', '(', ')', '/', '<', '>', '\\', '{', '}']);
}
