//! The signed token codec: a token is the lowercase hex encoding of the
//! canonical claim bytes followed by their 32-byte HMAC-SHA-256 code.
//! Signing is deterministic in claims and key; verification recomputes
//! the code over the received claim bytes, checks the issuer against the
//! verifying key, and checks expiry first, so that a stale token is
//! reported as stale whatever its signature.

use crate::bytes::{append_bytes, ct_eq};
use crate::claims::{ClaimSet, ClaimSetModel, KeyModel, SigningKey};
use crate::crypto::{hmac_sha256, hmac_sha256_of};
use crate::hexcode::{hex_encode, hex_decode, hex_of, unhex};
use crate::wire::{dec_claims, decode_claims, enc_claims, encode_claims};
use vstd::prelude::*;

verus! {

/// Why a token was rejected.
#[derive(Clone, Copy, Debug, PartialEq, Eq, Structural)]
pub enum InvalidReason {
    Malformed,
    Expired,
    BadSignature,
}

/// Outcome of a verification: a token is either fully valid, with its
/// claims, or rejected with a reason; nothing in between.
#[derive(Clone, Debug, PartialEq, Eq)]
pub enum VerificationResult {
    Valid(ClaimSet),
    Invalid(InvalidReason),
}

#[verifier::ext_equal]
pub enum VerifyModel {
    Valid(ClaimSetModel),
    Invalid(InvalidReason),
}

impl View for VerificationResult {
    type V = VerifyModel;

    open spec fn view(&self) -> VerifyModel {
        match self {
            VerificationResult::Valid(c) => VerifyModel::Valid(c@),
            VerificationResult::Invalid(r) => VerifyModel::Invalid(*r),
        }
    }
}

/// A claim set too large for its token to be built in memory.
#[derive(Clone, Copy, Debug, PartialEq, Eq, Structural)]
pub struct EncodingError;

/// Claim bytes followed by their authentication code: what the hex
/// alphabet carries.
pub open spec fn signed_payload(c: ClaimSetModel, k: KeyModel) -> Seq<u8> {
    enc_claims(c) + hmac_sha256_of(k.secret, enc_claims(c))
}

/// The token `sign` produces for a claim set and key.
pub open spec fn spec_sign(c: ClaimSetModel, k: KeyModel) -> Seq<u8> {
    hex_of(signed_payload(c, k))
}

/// The claim set's token fits in memory.
pub open spec fn token_fits(c: ClaimSetModel) -> bool {
    enc_claims(c).len() + 32 <= usize::MAX / 2
}

/// What verification says of any token byte string: parse the hex,
/// split off the trailing 32-byte code, decode the claims; then reject
/// stale tokens as `Expired` whatever their signature, and otherwise
/// demand that the code matches the claim bytes under the verifying
/// key's secret and that the issuer claim names that key.
pub open spec fn spec_verify(t: Seq<u8>, k: KeyModel, now: u64) -> VerifyModel {
    match unhex(t) {
        Option::None => VerifyModel::Invalid(InvalidReason::Malformed),
        Option::Some(raw) => if raw.len() < 32 {
            VerifyModel::Invalid(InvalidReason::Malformed)
        } else {
            let cb = raw.subrange(0, raw.len() - 32);
            let sig = raw.subrange(raw.len() - 32, raw.len() as int);
            match dec_claims(cb) {
                Option::None => VerifyModel::Invalid(InvalidReason::Malformed),
                Option::Some(c) => if now >= c.expires_at {
                    VerifyModel::Invalid(InvalidReason::Expired)
                } else if sig != hmac_sha256_of(k.secret, cb) || c.issuer != k.id {
                    VerifyModel::Invalid(InvalidReason::BadSignature)
                } else {
                    VerifyModel::Valid(c)
                },
            }
        },
    }
}

/// The claim set a token byte string carries, independent of any key or
/// clock: the hex payload without its trailing 32-byte code, decoded.
pub open spec fn token_claims(t: Seq<u8>) -> Option<ClaimSetModel> {
    match unhex(t) {
        Option::None => None,
        Option::Some(raw) => if raw.len() < 32 {
            None
        } else {
            dec_claims(raw.subrange(0, raw.len() - 32))
        },
    }
}

/// Signs a claim set: deterministic in claims and key, and failing only
/// on a claim set whose token cannot fit in memory.
pub fn sign(c: &ClaimSet, key: &SigningKey) -> (r: Result<Vec<u8>, EncodingError>)
    ensures
        r is Ok <==> token_fits(c@),
        r matches Ok(t) ==> t@ == spec_sign(c@, key@),
{
    let mut payload = encode_claims(c);
    if payload.len() > usize::MAX / 2 - 32 {
        return Err(EncodingError);
    }
    let mac = hmac_sha256(key.secret.as_slice(), payload.as_slice());
    append_bytes(&mut payload, mac.as_slice());
    let t = hex_encode(payload.as_slice());
    proof {
        assert(payload@ == signed_payload(c@, key@));
    }
    Ok(t)
}

/// Verifies a token against a key at time `now`.
pub fn verify(token: &[u8], key: &SigningKey, now: u64) -> (r: VerificationResult)
    ensures
        r@ == spec_verify(token@, key@, now),
{
    let mut raw = match hex_decode(token) {
        Some(v) => v,
        None => {
            return VerificationResult::Invalid(InvalidReason::Malformed);
        },
    };
    if raw.len() < 32 {
        return VerificationResult::Invalid(InvalidReason::Malformed);
    }
    let split = raw.len() - 32;
    let sig = raw.split_off(split);
    let c = match decode_claims(raw.as_slice()) {
        Some(c) => c,
        None => {
            return VerificationResult::Invalid(InvalidReason::Malformed);
        },
    };
    if now >= c.expires_at {
        return VerificationResult::Invalid(InvalidReason::Expired);
    }
    let expected = hmac_sha256(key.secret.as_slice(), raw.as_slice());
    let sig_ok = ct_eq(sig.as_slice(), expected.as_slice());
    let iss_ok = ct_eq(c.issuer.as_slice(), key.id.as_slice());
    if sig_ok && iss_ok {
        VerificationResult::Valid(c)
    } else {
        VerificationResult::Invalid(InvalidReason::BadSignature)
    }
}

} // verus!
