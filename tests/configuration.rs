use newsletter::configuration::{create_email_client, AppEnvironment, EmailClientSettings};
use newsletter::telemetry::{Level, RequestIdMakeSpan};
use newsletter::ValidationError;

#[test]
fn environments_have_their_names() {
    assert_eq!(AppEnvironment::Local.as_str(), "local");
    assert_eq!(AppEnvironment::Production.as_str(), "production");
}

#[test]
fn environment_names_are_read_in_any_case() {
    assert_eq!(AppEnvironment::try_from("LOCAL".to_string()), Ok(AppEnvironment::Local));
    assert_eq!(AppEnvironment::try_from("Production".to_string()), Ok(AppEnvironment::Production));
}

#[test]
fn unknown_environment_is_refused_with_a_message() {
    assert_eq!(
        AppEnvironment::try_from("Staging".to_string()),
        Err("staging is not a supported environment. Use either 'local' or 'production'.".to_string())
    );
    assert!(AppEnvironment::from_lowercase("LOCAL").is_err());
}

fn settings(sender: &str) -> EmailClientSettings {
    EmailClientSettings {
        sender_email: sender.to_string(),
        base_url: "http://localhost".to_string(),
        authorization_token: "t".to_string(),
        timeout_in_milliseconds: 1500,
    }
}

#[test]
fn email_client_is_built_from_settings() {
    let c = create_email_client(settings("sender@example.com")).unwrap();
    assert_eq!(c.sender().as_ref(), "sender@example.com");
    assert_eq!(c.timeout_ms(), 1500);
}

#[test]
fn invalid_sender_is_refused() {
    assert_eq!(settings("nope").sender().unwrap_err(), ValidationError::InvalidFormat);
    assert!(create_email_client(settings("nope")).is_err());
}

#[test]
fn make_span_builder_sets_its_fields() {
    let d = RequestIdMakeSpan::new();
    assert_eq!(d.span_level(), Level::Debug);
    assert!(!d.records_headers());
    let s = d.level(Level::Warn).include_headers(true);
    assert_eq!(s.span_level(), Level::Warn);
    assert!(s.records_headers());
    let e = RequestIdMakeSpan::default();
    assert_eq!(e.span_level(), Level::Debug);
}
