//! Web Push delivery: RFC 8291 (aes128gcm content encryption) payloads and
//! RFC 8292 (VAPID) JWT authentication, together with the per-subscriber
//! request construction and batch dispatch rules built on them.

pub mod api;
pub mod base64url;
pub mod crypto;
pub mod origin;
pub mod push;
pub mod text;
pub mod vapid;
pub mod webpush;

use vstd::prelude::*;

verus! {

/// Errors of the push delivery pipeline.
///
/// `InvalidKey` marks malformed or out-of-range key material and is not
/// retryable. `CryptoFailure` marks a failure inside a cryptographic
/// primitive; it is defensive and not expected on well-formed inputs.
/// `EndpointRejected` carries a non-2xx response of the push service, and
/// `Transport` a network-level failure.
#[derive(Debug, Clone)]
pub enum PushError {
    InvalidKey,
    CryptoFailure,
    EndpointRejected { status: u16, body: String },
    Transport,
}

impl PushError {
    /// True exactly on a non-retryable key error.
    pub fn is_invalid_key(&self) -> (r: bool)
        ensures
            r == (self is InvalidKey),
    {
        match self {
            PushError::InvalidKey => true,
            _ => false,
        }
    }
}

} // verus!
