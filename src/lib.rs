//! Validated intake of newsletter subscriptions and the requests behind
//! transactional email dispatch.

pub mod configuration;
pub mod domain;
pub mod email_client;
pub mod extractors;
pub mod telemetry;
mod text;

pub use domain::{Field, NewSubscriber, SubscriberEmail, SubscriberName, ValidationError, ValidationErrors, Violation};
pub use email_client::{DispatchError, EmailClient, EmailRequest, SendEmailRequest};
pub use extractors::{DecodeError, Error, SubscriptionData, ValidatedForm};
