use newsletter::email_client::{bearer_header, response_outcome, DEFAULT_TIMEOUT_MS};
use newsletter::{DispatchError, EmailClient, SendEmailRequest, SubscriberEmail};

fn client(timeout: Option<u64>) -> EmailClient {
    let sender = SubscriberEmail::parse("sender@example.com".to_string()).unwrap();
    EmailClient::new(sender, "http://127.0.0.1:9999".to_string(), "tok3n".to_string(), timeout)
}

#[test]
fn send_email_fires_request_to_base_url() {
    let c = client(None);
    let recipient = SubscriberEmail::parse("ursula@example.com".to_string()).unwrap();
    let r = c.request(&recipient, "Hi", "<p>Hello</p>", "Hello");
    assert_eq!(r.url, "http://127.0.0.1:9999/v3/mail/send");
    assert_eq!(r.authorization, "Bearer tok3n");
    let body: serde_json::Value = serde_json::from_str(&r.body).unwrap();
    assert_eq!(body["personalizations"][0]["to"][0]["email"], "ursula@example.com");
    assert_eq!(body["from"], "sender@example.com");
    assert_eq!(body["subject"], "Hi");
    assert_eq!(body["content"][0]["value"], "<p>Hello</p>");
    assert_eq!(body["content"][1]["value"], "Hello");
}

#[test]
fn send_email_succeeds_if_server_returns_200() {
    assert_eq!(response_outcome(200), Ok(()));
    assert_eq!(response_outcome(204), Ok(()));
    assert_eq!(response_outcome(299), Ok(()));
}

#[test]
fn send_email_fails_if_server_returns_500() {
    assert_eq!(response_outcome(500), Err(DispatchError::RemoteRejected { status: 500 }));
    assert_eq!(response_outcome(404), Err(DispatchError::RemoteRejected { status: 404 }));
    assert_eq!(response_outcome(302), Err(DispatchError::RemoteRejected { status: 302 }));
    assert_eq!(response_outcome(199), Err(DispatchError::RemoteRejected { status: 199 }));
}

#[test]
fn payload_has_the_provider_shape() {
    let req = SendEmailRequest {
        from: "sender@example.com",
        to: "ursula@example.com",
        subject: "Say \"hi\"",
        html_content: "<p>a\\b</p>",
        text_content: "line1\nline2",
    };
    let body: serde_json::Value = serde_json::from_str(&req.json()).unwrap();
    let expected = serde_json::from_str::<serde_json::Value>(
        r#"{
            "personalizations": [{ "to": [{ "email": "ursula@example.com" }] }],
            "from": "sender@example.com",
            "subject": "Say \"hi\"",
            "content": [
                { "type": "text/html", "value": "<p>a\\b</p>" },
                { "type": "text/plain", "value": "line1\nline2" }
            ]
        }"#,
    )
    .unwrap();
    assert_eq!(body, expected);
}

#[test]
fn payload_text_is_exact() {
    let req = SendEmailRequest {
        from: "f@x.io",
        to: "t@x.io",
        subject: "s",
        html_content: "h",
        text_content: "t",
    };
    assert_eq!(
        req.json(),
        r#"{"personalizations":[{"to":[{"email":"t@x.io"}]}],"from":"f@x.io","subject":"s","content":[{"type":"text/html","value":"h"},{"type":"text/plain","value":"t"}]}"#
    );
}

#[test]
fn bearer_header_prefixes_the_token() {
    assert_eq!(bearer_header("abc"), "Bearer abc");
}

#[test]
fn timeout_defaults_to_ten_seconds() {
    assert_eq!(client(None).timeout_ms(), DEFAULT_TIMEOUT_MS);
    assert_eq!(DEFAULT_TIMEOUT_MS, 10_000);
    assert_eq!(client(Some(250)).timeout_ms(), 250);
}

#[test]
fn client_keeps_sender_and_base_url() {
    let c = client(None);
    assert_eq!(c.sender().as_ref(), "sender@example.com");
    assert_eq!(c.base_url(), "http://127.0.0.1:9999");
}

#[test]
fn transport_failure_is_its_own_error() {
    let e = DispatchError::Transport("timed out".to_string());
    assert_ne!(e, DispatchError::RemoteRejected { status: 500 });
}
