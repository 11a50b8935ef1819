//! Telling other services of events.
pub mod deliver;
pub mod metrics;

pub use self::deliver::{HttpHeader, WebhookTask};
