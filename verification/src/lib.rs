//! Scoped, time-bounded access credentials for real-time session rooms.
//!
//! The crate signs and verifies compact tokens over a shared secret:
//! an access token authorizes one participant to join one named room,
//! and a webhook token binds a signature to the digest of a request
//! body so that inbound event notifications can be authenticated.

pub mod bytes;
pub mod claims;
pub mod codec;
pub mod crypto;
pub mod event;
pub mod hexcode;
pub mod issuer;
pub mod laws;
pub mod webhook;
pub mod wire;

use vstd::prelude::*;

verus! {

} // verus!
