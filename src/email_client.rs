//! The requests that deliver one transactional email through the provider's
//! HTTP API, and what their answers mean.

use vstd::prelude::*;

use crate::domain::SubscriberEmail;

verus! {

/// The JSON string literal that `serde_json` writes for a text.
pub uninterp spec fn json_string(s: Seq<char>) -> Seq<char>;

/// Relies on `serde_json::to_string` on a `str`: it writes the text as one
/// JSON string literal, and cannot fail on a `str`.
#[verifier::external_body]
fn json_quote(s: &str) -> (r: String)
    ensures
        r@ == json_string(s@),
{
    match serde_json::to_string(s) {
        Ok(q) => q,
        Err(_) => String::new(),
    }
}

/// The timeout of a request when none is configured, in milliseconds.
pub const DEFAULT_TIMEOUT_MS: u64 = 10_000;

pub open spec fn send_path() -> Seq<char> {
    "/v3/mail/send"@
}

pub open spec fn bearer_prefix() -> Seq<char> {
    "Bearer "@
}

/// The JSON body that asks the provider to send one email, around the JSON
/// string literals of its fields.
pub open spec fn payload_layout(
    from: Seq<char>,
    to: Seq<char>,
    subject: Seq<char>,
    html: Seq<char>,
    text: Seq<char>,
) -> Seq<char> {
    "{\"personalizations\":[{\"to\":[{\"email\":"@ + to + "}]}],\"from\":"@ + from
        + ",\"subject\":"@ + subject + ",\"content\":[{\"type\":\"text/html\",\"value\":"@
        + html + "},{\"type\":\"text/plain\",\"value\":"@ + text + "}]}"@
}

/// The JSON body that asks the provider to send one email.
pub open spec fn payload_text(
    from: Seq<char>,
    to: Seq<char>,
    subject: Seq<char>,
    html: Seq<char>,
    text: Seq<char>,
) -> Seq<char> {
    payload_layout(
        json_string(from),
        json_string(to),
        json_string(subject),
        json_string(html),
        json_string(text),
    )
}

/// The body in the provider's JSON shape, from the JSON string literals of
/// its fields.
pub fn payload_from_literals(from: &str, to: &str, subject: &str, html: &str, text: &str) -> (r:
    String)
    ensures
        r@ == payload_layout(from@, to@, subject@, html@, text@),
{
    let mut r = String::from_str("{\"personalizations\":[{\"to\":[{\"email\":");
    r.append(to);
    r.append("}]}],\"from\":");
    r.append(from);
    r.append(",\"subject\":");
    r.append(subject);
    r.append(",\"content\":[{\"type\":\"text/html\",\"value\":");
    r.append(html);
    r.append("},{\"type\":\"text/plain\",\"value\":");
    r.append(text);
    r.append("}]}");
    r
}

/// The fields of one email, borrowed for the time it takes to write them out.
pub struct SendEmailRequest<'a> {
    pub from: &'a str,
    pub to: &'a str,
    pub subject: &'a str,
    pub html_content: &'a str,
    pub text_content: &'a str,
}

impl<'a> SendEmailRequest<'a> {
    /// The body in the provider's JSON shape.
    pub fn json(&self) -> (r: String)
        ensures
            r@ == payload_text(
                self.from@,
                self.to@,
                self.subject@,
                self.html_content@,
                self.text_content@,
            ),
    {
        payload_from_literals(
            json_quote(self.from).as_str(),
            json_quote(self.to).as_str(),
            json_quote(self.subject).as_str(),
            json_quote(self.html_content).as_str(),
            json_quote(self.text_content).as_str(),
        )
    }
}

/// The value of the `Authorization` header that carries `token`.
pub fn bearer_header(token: &str) -> (r: String)
    ensures
        r@ == bearer_prefix() + token@,
{
    let mut r = String::from_str("Bearer ");
    r.append(token);
    r
}

/// One request to the provider, ready to be sent as a `POST` with a JSON body.
pub struct EmailRequest {
    pub url: String,
    pub authorization: String,
    pub body: String,
}

/// Why an email was not delivered.
#[derive(Debug, PartialEq, Eq)]
pub enum DispatchError {
    /// The provider answered with a status outside the success range.
    RemoteRejected { status: u16 },
    /// The provider could not be reached, or did not answer in time; the
    /// cause is described.
    Transport(String),
}

/// Whether an HTTP status reports success.
pub open spec fn is_success(status: u16) -> bool {
    200 <= status && status <= 299
}

/// What the provider's answer with `status` means for the delivery.
pub fn response_outcome(status: u16) -> (r: Result<(), DispatchError>)
    ensures
        is_success(status) ==> r is Ok,
        !is_success(status) ==> r == Err::<(), DispatchError>(
            DispatchError::RemoteRejected { status },
        ),
{
    if 200 <= status && status <= 299 {
        Ok(())
    } else {
        Err(DispatchError::RemoteRejected { status })
    }
}

/// What the client knows to send emails through the provider: the sender,
/// the provider's base URL, the token, and how long a request may take.
///
/// The token is held in a private field and the type has no `Debug`, so it
/// never shows in formatted output; only `request` reads it.
pub struct EmailClient {
    sender: SubscriberEmail,
    base_url: String,
    authorization_token: String,
    timeout_ms: u64,
}

impl EmailClient {
    pub closed spec fn sender_spec(&self) -> Seq<char> {
        self.sender@
    }

    pub closed spec fn base_url_spec(&self) -> Seq<char> {
        self.base_url@
    }

    pub closed spec fn token_spec(&self) -> Seq<char> {
        self.authorization_token@
    }

    pub closed spec fn timeout_ms_spec(&self) -> u64 {
        self.timeout_ms
    }

    /// A client for the provider at `base_url`; without a timeout, requests
    /// may take `DEFAULT_TIMEOUT_MS`.
    pub fn new(
        sender: SubscriberEmail,
        base_url: String,
        authorization_token: String,
        timeout_ms: Option<u64>,
    ) -> (r: EmailClient)
        ensures
            r.sender_spec() == sender@,
            r.base_url_spec() == base_url@,
            r.token_spec() == authorization_token@,
            r.timeout_ms_spec() == match timeout_ms {
                Some(t) => t,
                None => DEFAULT_TIMEOUT_MS,
            },
    {
        let timeout_ms = match timeout_ms {
            Some(t) => t,
            None => DEFAULT_TIMEOUT_MS,
        };
        EmailClient { sender, base_url, authorization_token, timeout_ms }
    }

    pub fn sender(&self) -> (r: &SubscriberEmail)
        ensures
            r@ == self.sender_spec(),
    {
        &self.sender
    }

    pub fn base_url(&self) -> (r: &str)
        ensures
            r@ == self.base_url_spec(),
    {
        self.base_url.as_str()
    }

    /// How long one request may take, in milliseconds.
    pub fn timeout_ms(&self) -> (r: u64)
        ensures
            r == self.timeout_ms_spec(),
    {
        self.timeout_ms
    }

    /// The request that sends one email to `recipient`: a `POST` to
    /// `{base_url}/v3/mail/send` with a bearer token and the JSON body.
    pub fn request(
        &self,
        recipient: &SubscriberEmail,
        subject: &str,
        html_content: &str,
        text_content: &str,
    ) -> (r: EmailRequest)
        ensures
            r.url@ == self.base_url_spec() + send_path(),
            r.body@ == payload_text(
                self.sender_spec(),
                recipient@,
                subject@,
                html_content@,
                text_content@,
            ),
            r.authorization@ == bearer_prefix() + self.token_spec(),
    {
        let mut url = self.base_url.clone();
        url.append("/v3/mail/send");
        let authorization = bearer_header(self.authorization_token.as_str());
        let body = SendEmailRequest {
            from: self.sender.as_ref(),
            to: recipient.as_ref(),
            subject,
            html_content,
            text_content,
        }.json();
        EmailRequest { url, authorization, body }
    }
}

} // verus!
