//! The two cryptographic primitives the token scheme rests on, called
//! through outside crates. Their results are named, not described: the
//! contracts elsewhere speak of `hmac_sha256_of` and `sha256_of`.

use hmac::Mac;
use sha2::Digest;
use vstd::prelude::*;

verus! {

/// The HMAC-SHA-256 authentication code of `msg` under `key`: a pure
/// function of the two byte strings.
pub uninterp spec fn hmac_sha256_of(key: Seq<u8>, msg: Seq<u8>) -> Seq<u8>;

/// The SHA-256 digest of a byte string: a pure function of its input.
pub uninterp spec fn sha256_of(msg: Seq<u8>) -> Seq<u8>;

/// Relies on `hmac::Hmac<sha2::Sha256>`: the code depends only on key and
/// message, is 32 bytes long, and a key of any length is accepted.
#[verifier::external_body]
pub(crate) fn hmac_sha256(key: &[u8], msg: &[u8]) -> (r: Vec<u8>)
    ensures
        r@ == hmac_sha256_of(key@, msg@),
        r@.len() == 32,
{
    let mut mac = <hmac::Hmac<sha2::Sha256> as Mac>::new_from_slice(key).unwrap();
    mac.update(msg);
    mac.finalize().into_bytes().to_vec()
}

/// Relies on `sha2::Sha256`: the digest depends only on the input bytes
/// and is 32 bytes long.
#[verifier::external_body]
pub(crate) fn sha256(msg: &[u8]) -> (r: Vec<u8>)
    ensures
        r@ == sha256_of(msg@),
        r@.len() == 32,
{
    <sha2::Sha256 as Digest>::digest(msg).to_vec()
}

} // verus!
