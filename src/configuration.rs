//! The settings that the application runs with.

use vstd::prelude::*;

use crate::domain::{email_violation, SubscriberEmail, ValidationError};
use crate::email_client::EmailClient;
use crate::text::same_text;

verus! {

/// The environments that the application knows settings for.
#[derive(Clone, Copy, Debug, PartialEq, Eq, Structural)]
pub enum AppEnvironment {
    Local,
    Production,
}

/// The name of an environment, as its settings file is named.
pub open spec fn environment_name(e: AppEnvironment) -> Seq<char> {
    match e {
        AppEnvironment::Local => "local"@,
        AppEnvironment::Production => "production"@,
    }
}

/// The environment that a lower-case name stands for.
pub open spec fn environment_named(s: Seq<char>) -> Option<AppEnvironment> {
    if s == "local"@ {
        Some(AppEnvironment::Local)
    } else if s == "production"@ {
        Some(AppEnvironment::Production)
    } else {
        None
    }
}

pub open spec fn unsupported_environment_message(s: Seq<char>) -> Seq<char> {
    s + " is not a supported environment. Use either 'local' or 'production'."@
}

/// What `str::to_lowercase` gives for a text.
pub uninterp spec fn lowercase_of(s: Seq<char>) -> Seq<char>;

/// Relies on `str::to_lowercase`: the lower-case form of every character,
/// which depends on the text alone.
#[verifier::external_body]
fn lowercase(s: &str) -> (r: String)
    ensures
        r@ == lowercase_of(s@),
{
    s.to_lowercase()
}

impl AppEnvironment {
    pub fn as_str(&self) -> (r: &'static str)
        ensures
            r@ == environment_name(*self),
    {
        match self {
            AppEnvironment::Local => "local",
            AppEnvironment::Production => "production",
        }
    }

    /// The environment that the lower-case `name` stands for, or a message
    /// that names the supported ones.
    pub fn from_lowercase(name: &str) -> (r: Result<AppEnvironment, String>)
        ensures
            match r {
                Ok(e) => environment_named(name@) == Some(e),
                Err(m) => environment_named(name@) is None && m@ == unsupported_environment_message(
                    name@,
                ),
            },
    {
        if same_text(name, "local") {
            Ok(AppEnvironment::Local)
        } else if same_text(name, "production") {
            Ok(AppEnvironment::Production)
        } else {
            let mut m = String::from_str(name);
            m.append(" is not a supported environment. Use either 'local' or 'production'.");
            Err(m)
        }
    }

    /// The environment that `value` names, in any case.
    pub fn try_from(value: String) -> (r: Result<AppEnvironment, String>)
        ensures
            match r {
                Ok(e) => environment_named(lowercase_of(value@)) == Some(e),
                Err(m) => environment_named(lowercase_of(value@)) is None && m@
                    == unsupported_environment_message(lowercase_of(value@)),
            },
    {
        let lower = lowercase(value.as_str());
        AppEnvironment::from_lowercase(lower.as_str())
    }
}

/// Where the application listens.
#[derive(Debug)]
pub struct ApplicationSettings {
    pub port: u16,
    pub host: String,
}

/// How the application reaches the email provider.
#[derive(Debug)]
pub struct EmailClientSettings {
    pub sender_email: String,
    pub base_url: String,
    pub authorization_token: String,
    pub timeout_in_milliseconds: u64,
}

impl EmailClientSettings {
    /// The configured sender, validated as a subscriber's address is.
    pub fn sender(&self) -> (r: Result<SubscriberEmail, ValidationError>)
        ensures
            match r {
                Ok(e) => email_violation(self.sender_email@) is None && e@ == self.sender_email@,
                Err(e) => email_violation(self.sender_email@) == Some(e),
            },
    {
        SubscriberEmail::parse(self.sender_email.clone())
    }
}

/// The client that these settings describe, if the sender is a valid address.
pub fn create_email_client(settings: EmailClientSettings) -> (r: Result<EmailClient, ValidationError>)
    ensures
        match r {
            Ok(c) => email_violation(settings.sender_email@) is None && c.sender_spec()
                == settings.sender_email@ && c.base_url_spec() == settings.base_url@
                && c.token_spec() == settings.authorization_token@ && c.timeout_ms_spec()
                == settings.timeout_in_milliseconds,
            Err(e) => email_violation(settings.sender_email@) == Some(e),
        },
{
    let sender = match settings.sender() {
        Ok(s) => s,
        Err(e) => {
            return Err(e);
        },
    };
    Ok(
        EmailClient::new(
            sender,
            settings.base_url,
            settings.authorization_token,
            Some(settings.timeout_in_milliseconds),
        ),
    )
}

} // verus!
