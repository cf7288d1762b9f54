//! The guarantees the token scheme gives, proved once and for all over
//! the codec's specification. Each law is stated over every claim set,
//! key and clock value its hypotheses admit.
//!
//! Where a hypothesis reads `hmac_sha256_of(..).len() == 32`, it states
//! the fixed 32-byte length of an HMAC-SHA-256 code, which the signing
//! primitive guarantees of every code it returns.

use crate::claims::{wf_claims, ClaimSetModel, KeyModel};
use crate::codec::{
    signed_payload, spec_sign, spec_verify, token_claims, InvalidReason, VerifyModel,
};
use crate::crypto::hmac_sha256_of;
use crate::hexcode::{all_hex, hex_of, hex_val, is_hex_digit, lemma_hex_unhex,
    lemma_hex_val_injective, lemma_unhex_hex, unhex};
use crate::wire::{dec_claims, enc_claims, lemma_dec_enc, lemma_enc_dec};
use vstd::prelude::*;

verus! {

/// Round-trip: a token signed with a key verifies under that key at any
/// time strictly before its expiry, and yields exactly the claims it
/// was built from.
pub proof fn lemma_sign_verify_round_trip(c: ClaimSetModel, k: KeyModel, now: u64)
    requires
        wf_claims(c),
        c.issuer == k.id,
        now < c.expires_at,
        hmac_sha256_of(k.secret, enc_claims(c)).len() == 32,
    ensures
        spec_verify(spec_sign(c, k), k, now) == VerifyModel::Valid(c),
{
    let enc = enc_claims(c);
    let mac = hmac_sha256_of(k.secret, enc);
    let payload = signed_payload(c, k);
    lemma_unhex_hex(payload);
    assert(unhex(spec_sign(c, k)) == Some(payload));
    assert(payload.subrange(0, payload.len() - 32) =~= enc);
    assert(payload.subrange(payload.len() - 32, payload.len() as int) =~= mac);
    lemma_dec_enc(c);
}

/// Tamper detection, signature side: a token carrying the right claim
/// bytes but any 32-byte signature other than their code under the key
/// is rejected as `BadSignature` (expiry is checked first, so the claim
/// set must still be live).
pub proof fn lemma_forged_signature_rejected(
    c: ClaimSetModel,
    k: KeyModel,
    now: u64,
    sig: Seq<u8>,
)
    requires
        wf_claims(c),
        now < c.expires_at,
        sig.len() == 32,
        sig != hmac_sha256_of(k.secret, enc_claims(c)),
    ensures
        spec_verify(hex_of(enc_claims(c) + sig), k, now) == VerifyModel::Invalid(
            InvalidReason::BadSignature,
        ),
{
    let enc = enc_claims(c);
    let payload = enc + sig;
    lemma_unhex_hex(payload);
    assert(unhex(hex_of(payload)) == Some(payload));
    assert(payload.subrange(0, payload.len() - 32) =~= enc);
    assert(payload.subrange(payload.len() - 32, payload.len() as int) =~= sig);
    lemma_dec_enc(c);
}

/// Tamper detection at the wire: replacing any single byte in the
/// signature region of a signed token with any other byte of the hex
/// alphabet makes verification fail as `BadSignature`. (A replacement
/// from outside the alphabet fails as `Malformed`; that a flip in the
/// claim region cannot keep the signature valid rests on the collision
/// resistance of the code itself and is exercised by tests instead.)
#[verifier::rlimit(100)]
pub proof fn lemma_signature_byte_flip(c: ClaimSetModel, k: KeyModel, now: u64, p: int, d: u8)
    requires
        wf_claims(c),
        now < c.expires_at,
        hmac_sha256_of(k.secret, enc_claims(c)).len() == 32,
        2 * enc_claims(c).len() <= p < spec_sign(c, k).len(),
        is_hex_digit(d),
        d != spec_sign(c, k)[p],
    ensures
        spec_verify(spec_sign(c, k).update(p, d), k, now) == VerifyModel::Invalid(
            InvalidReason::BadSignature,
        ),
{
    let enc = enc_claims(c);
    let mac = hmac_sha256_of(k.secret, enc);
    let payload = signed_payload(c, k);
    let t = spec_sign(c, k);
    let t2 = t.update(p, d);
    lemma_unhex_hex(payload);
    assert(unhex(t) == Some(payload));
    assert(t.len() % 2 == 0 && all_hex(t));
    assert(t2.len() == t.len());
    assert(all_hex(t2)) by {
        assert(forall|j: int| 0 <= j < t2.len() && j != p ==> t2[j] == t[j]);
    }
    let raw2 = unhex(t2)->Some_0;
    let q = p / 2;
    assert(payload.len() == enc.len() + 32);
    assert(raw2.len() == payload.len());
    assert(enc.len() <= q < payload.len());
    assert forall|i: int| 0 <= i < raw2.len() && i != q implies raw2[i] == payload[i] by {
        assert(t2[2 * i] == t[2 * i] && t2[2 * i + 1] == t[2 * i + 1]);
        assert(payload[i] == (16 * hex_val(t[2 * i]) + hex_val(t[2 * i + 1])) as u8);
    }
    assert(raw2[q] != payload[q]) by {
        assert(payload[q] == (16 * hex_val(t[2 * q]) + hex_val(t[2 * q + 1])) as u8);
        assert(raw2[q] == (16 * hex_val(t2[2 * q]) + hex_val(t2[2 * q + 1])) as u8);
        assert(hex_val(t[2 * q]) < 16 && hex_val(t[2 * q + 1]) < 16);
        assert(hex_val(t2[2 * q]) < 16 && hex_val(t2[2 * q + 1]) < 16);
        if p == 2 * q {
            lemma_hex_val_injective(d, t[2 * q]);
        } else {
            lemma_hex_val_injective(d, t[2 * q + 1]);
        }
    }
    assert(raw2.subrange(0, raw2.len() - 32) =~= enc);
    let sig2 = raw2.subrange(raw2.len() - 32, raw2.len() as int);
    assert(sig2[q - enc.len()] == raw2[q]);
    assert(mac[q - enc.len()] == payload[q]);
    assert(sig2 != mac);
    lemma_dec_enc(c);
}

/// Expiry: a token whose claims place `expires_at` at or before `now`
/// is rejected as `Expired`, whatever its signature and under whichever
/// key it is checked.
pub proof fn lemma_expired_rejected(t: Seq<u8>, k: KeyModel, now: u64, c: ClaimSetModel)
    requires
        token_claims(t) == Some(c),
        now >= c.expires_at,
    ensures
        spec_verify(t, k, now) == VerifyModel::Invalid(InvalidReason::Expired),
{
}

/// Canonical encoding: a token that verifies as valid for a claim set
/// under a key is the one token `sign` produces for them. No reordered,
/// re-encoded or otherwise malleated variant of a signed token passes
/// verification in its place.
#[verifier::rlimit(100)]
pub proof fn lemma_valid_token_unique(t: Seq<u8>, k: KeyModel, now: u64, c: ClaimSetModel)
    requires
        spec_verify(t, k, now) == VerifyModel::Valid(c),
    ensures
        t == spec_sign(c, k),
{
    let raw = unhex(t)->Some_0;
    let cb = raw.subrange(0, raw.len() - 32);
    let sig = raw.subrange(raw.len() - 32, raw.len() as int);
    lemma_enc_dec(cb, c);
    assert(sig == hmac_sha256_of(k.secret, cb));
    assert(raw =~= signed_payload(c, k));
    lemma_hex_unhex(t, raw);
}

/// Key isolation: a token signed with key `a` fails verification under
/// any key `b` with a different identifier, and does so as
/// `BadSignature`.
#[verifier::rlimit(80)]
pub proof fn lemma_key_isolation(c: ClaimSetModel, a: KeyModel, b: KeyModel, now: u64)
    requires
        wf_claims(c),
        c.issuer == a.id,
        a.id != b.id,
        now < c.expires_at,
        hmac_sha256_of(a.secret, enc_claims(c)).len() == 32,
    ensures
        spec_verify(spec_sign(c, a), b, now) == VerifyModel::Invalid(InvalidReason::BadSignature),
{
    let enc = enc_claims(c);
    let mac = hmac_sha256_of(a.secret, enc);
    let payload = signed_payload(c, a);
    lemma_unhex_hex(payload);
    assert(unhex(spec_sign(c, a)) == Some(payload));
    assert(payload.subrange(0, payload.len() - 32) =~= enc);
    assert(payload.subrange(payload.len() - 32, payload.len() as int) =~= mac);
    lemma_dec_enc(c);
    assert(dec_claims(enc) == Some(c));
    assert(c.issuer != b.id);
}

} // verus!
