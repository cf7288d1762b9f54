//! Webhook authentication: verify the signed token carried in the
//! request header, bind it to the exact received body through the
//! digest claim, and only then parse the body into an event.

use crate::bytes::ct_eq;
use crate::claims::{KeyModel, ScopeModel, SigningKey, TokenScope};
use crate::codec::{spec_verify, verify, InvalidReason, VerificationResult, VerifyModel};
use crate::crypto::{sha256, sha256_of};
use crate::event::{parse_event, spec_parse_event, Event};
use vstd::prelude::*;

verus! {

/// Why a webhook request was rejected. The classes are distinct on
/// purpose: an unparseable header, a token signed by someone else or
/// stale, a body that is not the one the token certifies, and a body
/// that is authentic but no known event.
#[derive(Clone, Copy, Debug, PartialEq, Eq, Structural)]
pub enum AuthError {
    MissingOrMalformedHeader,
    Unauthorized(InvalidReason),
    BodyTampered,
    MalformedEvent,
}

/// What authentication says of any body and header: the token must
/// verify under the key at `now` (an unparseable one is a header fault,
/// a stale or foreign one an authorization fault); its digest claim
/// must be the SHA-256 of exactly the received bytes — a valid token
/// without a digest claim certifies no body at all and is `BodyTampered`
/// too; only then is the body read, and a parse failure is its own
/// class, distinct from every authentication fault.
pub open spec fn spec_authenticate(body: Seq<u8>, header: Seq<u8>, k: KeyModel, now: u64) -> Result<
    Event,
    AuthError,
> {
    match spec_verify(header, k, now) {
        VerifyModel::Invalid(InvalidReason::Malformed) => Err(AuthError::MissingOrMalformedHeader),
        VerifyModel::Invalid(reason) => Err(AuthError::Unauthorized(reason)),
        VerifyModel::Valid(c) => match c.scope {
            ScopeModel::Access { .. } => Err(AuthError::BodyTampered),
            ScopeModel::Webhook { body_digest } => if body_digest != sha256_of(body) {
                Err(AuthError::BodyTampered)
            } else {
                match spec_parse_event(body) {
                    Some(e) => Ok(e),
                    None => Err(AuthError::MalformedEvent),
                }
            },
        },
    }
}

/// Authenticates an inbound webhook request and returns its event.
pub fn authenticate_webhook(body: &[u8], header: &[u8], key: &SigningKey, now: u64) -> (r: Result<
    Event,
    AuthError,
>)
    ensures
        r == spec_authenticate(body@, header@, key@, now),
{
    let c = match verify(header, key, now) {
        VerificationResult::Invalid(InvalidReason::Malformed) => {
            return Err(AuthError::MissingOrMalformedHeader);
        },
        VerificationResult::Invalid(reason) => {
            return Err(AuthError::Unauthorized(reason));
        },
        VerificationResult::Valid(c) => c,
    };
    let digest = match c.scope {
        TokenScope::Access { .. } => {
            return Err(AuthError::BodyTampered);
        },
        TokenScope::Webhook { body_digest } => body_digest,
    };
    let actual = sha256(body);
    if !ct_eq(digest.as_slice(), actual.as_slice()) {
        return Err(AuthError::BodyTampered);
    }
    match parse_event(body) {
        Some(e) => Ok(e),
        None => Err(AuthError::MalformedEvent),
    }
}

} // verus!
