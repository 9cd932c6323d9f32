//! The plain data types of the application's edges: its configuration and
//! the subscribe/unsubscribe API bodies. The values are ordinary strings
//! and numbers; reading the environment, HTTP and JSON stay with the
//! caller.

use crate::push::{Subscription, VapidConfig};
use vstd::prelude::*;

verus! {

/// The application's configuration, loaded once at startup.
#[derive(Debug, Clone)]
pub struct Config {
    pub fmi_place: String,
    pub port: u16,
    pub db_path: String,
    pub vapid_subject: String,
    pub vapid_public_key: String,
    pub vapid_private_key: String,
    pub summary_hour: u32,
}

impl Config {
    /// The VAPID identity this configuration carries.
    pub fn vapid_config(&self) -> (r: VapidConfig)
        ensures
            r.subject@ == self.vapid_subject@,
            r.public_key_b64@ == self.vapid_public_key@,
            r.private_key_b64@ == self.vapid_private_key@,
    {
        VapidConfig {
            subject: self.vapid_subject.clone(),
            public_key_b64: self.vapid_public_key.clone(),
            private_key_b64: self.vapid_private_key.clone(),
        }
    }
}

/// The body of a subscribe call: the subscription the browser issued.
pub struct SubscribeRequest {
    pub endpoint: String,
    pub p256dh: String,
    pub auth: String,
}

impl SubscribeRequest {
    /// The subscription record to store and deliver to.
    pub fn into_subscription(self) -> (r: Subscription)
        ensures
            r.endpoint@ == self.endpoint@,
            r.p256dh@ == self.p256dh@,
            r.auth@ == self.auth@,
    {
        Subscription { endpoint: self.endpoint, p256dh: self.p256dh, auth: self.auth }
    }
}

/// The body of an unsubscribe call.
pub struct UnsubscribeRequest {
    pub endpoint: String,
}

/// The answer of the subscribe, unsubscribe and test endpoints.
pub struct ApiResponse {
    pub ok: bool,
    pub error: Option<String>,
}

impl ApiResponse {
    /// A success answer.
    pub fn success() -> (r: ApiResponse)
        ensures
            r.ok == true,
            r.error is None,
    {
        ApiResponse { ok: true, error: None }
    }

    /// A failure answer carrying a message.
    pub fn failure(message: String) -> (r: ApiResponse)
        ensures
            r.ok == false,
            r.error matches Some(m) && m@ == message@,
    {
        ApiResponse { ok: false, error: Some(message) }
    }
}

} // verus!
