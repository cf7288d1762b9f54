//! Canonical byte encoding of a claim set. Fields are length-prefixed
//! (eight little-endian length bytes, then the content), integers are
//! eight little-endian bytes, and a leading tag byte tells the two token
//! flavours apart, so that every claim set has exactly one encoding and
//! decoding inverts it.

use crate::claims::{
    ClaimSet, ClaimSetModel, RoomGrants, RoomGrantsModel, ScopeModel, TokenScope,
};
use vstd::prelude::*;

verus! {

/// Little-endian bytes of a 64-bit integer.
pub open spec fn u64_le(n: u64) -> Seq<u8> {
    seq![
        (n & 0xff) as u8,
        ((n >> 8) & 0xff) as u8,
        ((n >> 16) & 0xff) as u8,
        ((n >> 24) & 0xff) as u8,
        ((n >> 32) & 0xff) as u8,
        ((n >> 40) & 0xff) as u8,
        ((n >> 48) & 0xff) as u8,
        ((n >> 56) & 0xff) as u8,
    ]
}

/// The 64-bit integer read little-endian from eight bytes of `s`
/// starting at `i`.
pub open spec fn le_at(s: Seq<u8>, i: int) -> u64
    recommends
        0 <= i,
        i + 8 <= s.len(),
{
    (s[i] as u64) | ((s[i + 1] as u64) << 8) | ((s[i + 2] as u64) << 16) | ((s[i + 3] as u64)
        << 24) | ((s[i + 4] as u64) << 32) | ((s[i + 5] as u64) << 40) | ((s[i + 6] as u64) << 48)
        | ((s[i + 7] as u64) << 56)
}

/// Length-prefixed encoding of one byte-string field.
pub open spec fn lp(b: Seq<u8>) -> Seq<u8> {
    u64_le(b.len() as u64) + b
}

/// A length-prefixed field starting at `i` lies entirely inside `s`.
pub open spec fn lp_ok(s: Seq<u8>, i: int) -> bool {
    0 <= i && i + 8 <= s.len() && i + 8 + le_at(s, i) <= s.len()
}

/// Content of the length-prefixed field starting at `i`.
pub open spec fn lp_field(s: Seq<u8>, i: int) -> Seq<u8> {
    s.subrange(i + 8, i + 8 + le_at(s, i))
}

/// Index just past the length-prefixed field starting at `i`.
pub open spec fn lp_end(s: Seq<u8>, i: int) -> int {
    i + 8 + le_at(s, i)
}

pub open spec fn scope_tag(sc: ScopeModel) -> u8 {
    match sc {
        ScopeModel::Access { .. } => 1,
        ScopeModel::Webhook { .. } => 2,
    }
}

pub open spec fn enc_scope(sc: ScopeModel) -> Seq<u8> {
    match sc {
        ScopeModel::Access { display_name, grants } => lp(display_name) + seq![
            if grants.room_join {
                1u8
            } else {
                0u8
            },
        ] + lp(grants.room),
        ScopeModel::Webhook { body_digest } => lp(body_digest),
    }
}

/// The canonical encoding a signature is computed over.
pub open spec fn enc_claims(c: ClaimSetModel) -> Seq<u8> {
    seq![scope_tag(c.scope)] + lp(c.issuer) + lp(c.subject) + u64_le(c.issued_at) + u64_le(
        c.expires_at,
    ) + enc_scope(c.scope)
}

/// Decoding of a canonical claim encoding; `None` unless the whole of
/// `s` is consumed by exactly the fields the tag byte announces.
pub open spec fn dec_claims(s: Seq<u8>) -> Option<ClaimSetModel> {
    if s.len() < 1 {
        None
    } else {
        let tag = s[0];
        if !lp_ok(s, 1) {
            None
        } else {
            let issuer = lp_field(s, 1);
            let i2 = lp_end(s, 1);
            if !lp_ok(s, i2) {
                None
            } else {
                let subject = lp_field(s, i2);
                let i3 = lp_end(s, i2);
                if i3 + 16 > s.len() {
                    None
                } else {
                    let issued_at = le_at(s, i3);
                    let expires_at = le_at(s, i3 + 8);
                    let i4 = i3 + 16;
                    if tag == 1 {
                        dec_access_tail(s, i4, issuer, subject, issued_at, expires_at)
                    } else if tag == 2 {
                        dec_webhook_tail(s, i4, issuer, subject, issued_at, expires_at)
                    } else {
                        None
                    }
                }
            }
        }
    }
}

pub open spec fn dec_access_tail(
    s: Seq<u8>,
    i4: int,
    issuer: Seq<u8>,
    subject: Seq<u8>,
    issued_at: u64,
    expires_at: u64,
) -> Option<ClaimSetModel> {
    if !lp_ok(s, i4) {
        None
    } else {
        let display_name = lp_field(s, i4);
        let i5 = lp_end(s, i4);
        if i5 >= s.len() {
            None
        } else {
            let rj = s[i5];
            if rj != 0 && rj != 1 {
                None
            } else {
                if !lp_ok(s, i5 + 1) {
                    None
                } else {
                    let room = lp_field(s, i5 + 1);
                    let i6 = lp_end(s, i5 + 1);
                    if i6 != s.len() {
                        None
                    } else {
                        Some(
                            ClaimSetModel {
                                issuer,
                                subject,
                                issued_at,
                                expires_at,
                                scope: ScopeModel::Access {
                                    display_name,
                                    grants: RoomGrantsModel { room_join: rj == 1, room },
                                },
                            },
                        )
                    }
                }
            }
        }
    }
}

pub open spec fn dec_webhook_tail(
    s: Seq<u8>,
    i4: int,
    issuer: Seq<u8>,
    subject: Seq<u8>,
    issued_at: u64,
    expires_at: u64,
) -> Option<ClaimSetModel> {
    if !lp_ok(s, i4) {
        None
    } else {
        let body_digest = lp_field(s, i4);
        let i5 = lp_end(s, i4);
        if i5 != s.len() {
            None
        } else {
            Some(
                ClaimSetModel {
                    issuer,
                    subject,
                    issued_at,
                    expires_at,
                    scope: ScopeModel::Webhook { body_digest },
                },
            )
        }
    }
}

pub proof fn lemma_le_at(s: Seq<u8>, i: int, n: u64)
    requires
        0 <= i,
        i + 8 <= s.len(),
        s.subrange(i, i + 8) == u64_le(n),
    ensures
        le_at(s, i) == n,
{
    assert(s[i] == u64_le(n)[0] && s[i + 1] == u64_le(n)[1] && s[i + 2] == u64_le(n)[2] && s[i + 3]
        == u64_le(n)[3] && s[i + 4] == u64_le(n)[4] && s[i + 5] == u64_le(n)[5] && s[i + 6]
        == u64_le(n)[6] && s[i + 7] == u64_le(n)[7]) by {
        assert(s.subrange(i, i + 8)[0] == s[i]);
        assert(s.subrange(i, i + 8)[1] == s[i + 1]);
        assert(s.subrange(i, i + 8)[2] == s[i + 2]);
        assert(s.subrange(i, i + 8)[3] == s[i + 3]);
        assert(s.subrange(i, i + 8)[4] == s[i + 4]);
        assert(s.subrange(i, i + 8)[5] == s[i + 5]);
        assert(s.subrange(i, i + 8)[6] == s[i + 6]);
        assert(s.subrange(i, i + 8)[7] == s[i + 7]);
    }
    assert((((n & 0xff) as u8) as u64) | ((((n >> 8) & 0xff) as u8) as u64) << 8 | ((((n >> 16)
        & 0xff) as u8) as u64) << 16 | ((((n >> 24) & 0xff) as u8) as u64) << 24 | ((((n >> 32)
        & 0xff) as u8) as u64) << 32 | ((((n >> 40) & 0xff) as u8) as u64) << 40 | ((((n >> 48)
        & 0xff) as u8) as u64) << 48 | ((((n >> 56) & 0xff) as u8) as u64) << 56 == n)
        by (bit_vector);
}

/// A length-prefixed field embedded in a longer string parses back to
/// its own content.
pub proof fn lemma_lp_parse(s: Seq<u8>, i: int, b: Seq<u8>)
    requires
        0 <= i,
        b.len() <= usize::MAX,
        i + 8 + b.len() <= s.len(),
        s.subrange(i, i + 8 + b.len()) == lp(b),
    ensures
        lp_ok(s, i),
        lp_field(s, i) == b,
        lp_end(s, i) == i + 8 + b.len(),
{
    let w = s.subrange(i, i + 8 + b.len());
    assert(s.subrange(i, i + 8) =~= u64_le(b.len() as u64)) by {
        assert forall|k: int| 0 <= k < 8 implies #[trigger] s.subrange(i, i + 8)[k] == u64_le(
            b.len() as u64,
        )[k] by {
            assert(s.subrange(i, i + 8)[k] == w[k]);
            assert(w[k] == lp(b)[k]);
        }
    }
    lemma_le_at(s, i, b.len() as u64);
    assert(le_at(s, i) == b.len());
    assert(lp_field(s, i) =~= b) by {
        assert forall|k: int| 0 <= k < b.len() implies lp_field(s, i)[k] == b[k] by {
            assert(lp_field(s, i)[k] == s[i + 8 + k]);
            assert(s[i + 8 + k] == w[8 + k]);
            assert(w[8 + k] == lp(b)[8 + k]);
        }
    }
}

/// Decoding inverts the canonical encoding: no two claim sets share an
/// encoding, and nothing is lost on the wire.
#[verifier::rlimit(80)]
pub proof fn lemma_dec_enc(c: ClaimSetModel)
    requires
        crate::claims::wf_claims(c),
    ensures
        dec_claims(enc_claims(c)) == Some(c),
{
    let s = enc_claims(c);
    let il = c.issuer.len() as int;
    let sl = c.subject.len() as int;
    assert(s.len() >= 1);
    assert(s[0] == scope_tag(c.scope));
    assert(s.subrange(1, 9 + il) =~= lp(c.issuer));
    lemma_lp_parse(s, 1, c.issuer);
    let i2 = 9 + il;
    assert(s.subrange(i2, i2 + 8 + sl) =~= lp(c.subject));
    lemma_lp_parse(s, i2, c.subject);
    let i3 = i2 + 8 + sl;
    assert(s.subrange(i3, i3 + 8) =~= u64_le(c.issued_at));
    lemma_le_at(s, i3, c.issued_at);
    assert(s.subrange(i3 + 8, i3 + 16) =~= u64_le(c.expires_at));
    lemma_le_at(s, i3 + 8, c.expires_at);
    let i4 = i3 + 16;
    match c.scope {
        ScopeModel::Access { display_name, grants } => {
            let dl = display_name.len() as int;
            let rl = grants.room.len() as int;
            assert(s.subrange(i4, i4 + 8 + dl) =~= lp(display_name));
            lemma_lp_parse(s, i4, display_name);
            let i5 = i4 + 8 + dl;
            assert(i5 < s.len());
            assert(s[i5] == (if grants.room_join {
                1u8
            } else {
                0u8
            }));
            assert(s.subrange(i5 + 1, i5 + 9 + rl) =~= lp(grants.room));
            lemma_lp_parse(s, i5 + 1, grants.room);
            assert(lp_end(s, i5 + 1) == s.len());
            assert(dec_claims(s) == Some(c)) by {
                let d = dec_access_tail(s, i4, c.issuer, c.subject, c.issued_at, c.expires_at);
                assert(d matches Some(x) && x =~= c);
            }
        },
        ScopeModel::Webhook { body_digest } => {
            let dl = body_digest.len() as int;
            assert(s.subrange(i4, i4 + 8 + dl) =~= lp(body_digest));
            lemma_lp_parse(s, i4, body_digest);
            assert(lp_end(s, i4) == s.len());
            assert(dec_claims(s) == Some(c)) by {
                let d = dec_webhook_tail(s, i4, c.issuer, c.subject, c.issued_at, c.expires_at);
                assert(d matches Some(x) && x =~= c);
            }
        },
    }
}

pub proof fn lemma_u64_le_at(s: Seq<u8>, i: int)
    requires
        0 <= i,
        i + 8 <= s.len(),
    ensures
        u64_le(le_at(s, i)) == s.subrange(i, i + 8),
{
    let b0 = s[i];
    let b1 = s[i + 1];
    let b2 = s[i + 2];
    let b3 = s[i + 3];
    let b4 = s[i + 4];
    let b5 = s[i + 5];
    let b6 = s[i + 6];
    let b7 = s[i + 7];
    let n = le_at(s, i);
    assert(n == (b0 as u64) | ((b1 as u64) << 8) | ((b2 as u64) << 16) | ((b3 as u64) << 24) | ((
    b4 as u64) << 32) | ((b5 as u64) << 40) | ((b6 as u64) << 48) | ((b7 as u64) << 56));
    let m = (b0 as u64) | ((b1 as u64) << 8) | ((b2 as u64) << 16) | ((b3 as u64) << 24) | ((
    b4 as u64) << 32) | ((b5 as u64) << 40) | ((b6 as u64) << 48) | ((b7 as u64) << 56);
    assert((m & 0xff) as u8 == b0 && ((m >> 8) & 0xff) as u8 == b1 && ((m >> 16) & 0xff) as u8
        == b2 && ((m >> 24) & 0xff) as u8 == b3 && ((m >> 32) & 0xff) as u8 == b4 && ((m >> 40)
        & 0xff) as u8 == b5 && ((m >> 48) & 0xff) as u8 == b6 && ((m >> 56) & 0xff) as u8 == b7)
        by (bit_vector)
        requires
            m == (b0 as u64) | ((b1 as u64) << 8) | ((b2 as u64) << 16) | ((b3 as u64) << 24) | ((
            b4 as u64) << 32) | ((b5 as u64) << 40) | ((b6 as u64) << 48) | ((b7 as u64) << 56),
    ;
    assert(u64_le(n) =~= s.subrange(i, i + 8));
}

pub proof fn lemma_lp_reassemble(s: Seq<u8>, i: int)
    requires
        lp_ok(s, i),
    ensures
        lp(lp_field(s, i)) == s.subrange(i, lp_end(s, i)),
{
    lemma_u64_le_at(s, i);
    assert(lp_field(s, i).len() == le_at(s, i));
    assert(lp(lp_field(s, i)) =~= s.subrange(i, lp_end(s, i)));
}

/// Decoding accepts only the canonical form: whatever byte string the
/// decoder accepts is exactly the encoding of the claims it yields, so
/// no reordered or re-encoded variant of a claim set verifies in its
/// place.
#[verifier::rlimit(100)]
pub proof fn lemma_enc_dec(s: Seq<u8>, c: ClaimSetModel)
    requires
        dec_claims(s) == Some(c),
    ensures
        enc_claims(c) == s,
{
    let i2 = lp_end(s, 1);
    lemma_lp_reassemble(s, 1);
    lemma_lp_reassemble(s, i2);
    let i3 = lp_end(s, i2);
    lemma_u64_le_at(s, i3);
    lemma_u64_le_at(s, i3 + 8);
    let i4 = i3 + 16;
    assert(u64_le(c.issued_at) == s.subrange(i3, i3 + 8));
    assert(u64_le(c.expires_at) == s.subrange(i3 + 8, i3 + 16));
    if s[0] == 1 {
        lemma_lp_reassemble(s, i4);
        let i5 = lp_end(s, i4);
        lemma_lp_reassemble(s, i5 + 1);
        assert(enc_claims(c) =~= s);
    } else {
        lemma_lp_reassemble(s, i4);
        assert(enc_claims(c) =~= s);
    }
}

fn put_u64_le(out: &mut Vec<u8>, n: u64)
    ensures
        final(out)@ == old(out)@ + u64_le(n),
{
    out.push(#[verifier::truncate] ((n & 0xff) as u8));
    out.push(#[verifier::truncate] (((n >> 8) & 0xff) as u8));
    out.push(#[verifier::truncate] (((n >> 16) & 0xff) as u8));
    out.push(#[verifier::truncate] (((n >> 24) & 0xff) as u8));
    out.push(#[verifier::truncate] (((n >> 32) & 0xff) as u8));
    out.push(#[verifier::truncate] (((n >> 40) & 0xff) as u8));
    out.push(#[verifier::truncate] (((n >> 48) & 0xff) as u8));
    out.push(#[verifier::truncate] (((n >> 56) & 0xff) as u8));
    proof {
        assert(out@ =~= old(out)@ + u64_le(n));
    }
}

fn put_bytes(out: &mut Vec<u8>, b: &Vec<u8>)
    ensures
        final(out)@ == old(out)@ + lp(b@),
{
    let ghost base = out@;
    put_u64_le(out, b.len() as u64);
    let mut i: usize = 0;
    while i < b.len()
        invariant
            i <= b@.len(),
            out@ == base + u64_le(b@.len() as u64) + b@.subrange(0, i as int),
        decreases b@.len() - i,
    {
        out.push(b[i]);
        proof {
            assert(base + u64_le(b@.len() as u64) + b@.subrange(0, i as int + 1) =~= (base + u64_le(
                b@.len() as u64,
            ) + b@.subrange(0, i as int)).push(b@[i as int]));
        }
        i += 1;
    }
    proof {
        assert(b@.subrange(0, b@.len() as int) =~= b@);
        assert(out@ =~= base + lp(b@));
    }
}

/// Builds the canonical encoding of a claim set.
pub fn encode_claims(c: &ClaimSet) -> (r: Vec<u8>)
    ensures
        r@ == enc_claims(c@),
{
    let mut out: Vec<u8> = Vec::new();
    match &c.scope {
        TokenScope::Access { .. } => out.push(1u8),
        TokenScope::Webhook { .. } => out.push(2u8),
    }
    put_bytes(&mut out, &c.issuer);
    put_bytes(&mut out, &c.subject);
    put_u64_le(&mut out, c.issued_at);
    put_u64_le(&mut out, c.expires_at);
    match &c.scope {
        TokenScope::Access { display_name, grants } => {
            put_bytes(&mut out, display_name);
            out.push(if grants.room_join {
                1u8
            } else {
                0u8
            });
            put_bytes(&mut out, &grants.room);
        },
        TokenScope::Webhook { body_digest } => {
            put_bytes(&mut out, body_digest);
        },
    }
    proof {
        assert(out@ =~= enc_claims(c@));
    }
    out
}

fn get_u64_le(s: &[u8], i: usize) -> (r: u64)
    requires
        i + 8 <= s@.len(),
    ensures
        r == le_at(s@, i as int),
{
    (s[i] as u64) | ((s[i + 1] as u64) << 8u64) | ((s[i + 2] as u64) << 16u64) | ((s[i + 3] as u64)
        << 24u64) | ((s[i + 4] as u64) << 32u64) | ((s[i + 5] as u64) << 40u64) | ((s[i
        + 6] as u64) << 48u64) | ((s[i + 7] as u64) << 56u64)
}

fn read_lp(s: &[u8], i: usize) -> (r: Option<(Vec<u8>, usize)>)
    requires
        i <= s@.len(),
    ensures
        match r {
            Some(p) => lp_ok(s@, i as int) && p.0@ == lp_field(s@, i as int) && p.1 as int
                == lp_end(s@, i as int),
            None => !lp_ok(s@, i as int),
        },
{
    if s.len() - i < 8 {
        return None;
    }
    let n = get_u64_le(s, i);
    let rem = (s.len() - i - 8) as u64;
    if n > rem {
        return None;
    }
    let len = #[verifier::truncate] (n as usize);
    proof {
        assert(len as int == n as int);
    }
    let start = i + 8;
    let f = crate::bytes::copy_range(s, start, start + len);
    Some((f, start + len))
}

/// Decodes a canonical claim encoding; `None` on anything but the exact
/// output of `encode_claims`.
pub fn decode_claims(s: &[u8]) -> (r: Option<ClaimSet>)
    ensures
        match r {
            Some(c) => dec_claims(s@) == Some(c@),
            None => dec_claims(s@) is None,
        },
{
    if s.len() < 1 {
        return None;
    }
    let tag = s[0];
    let (issuer, i2) = match read_lp(s, 1) {
        Some(p) => p,
        None => {
            return None;
        },
    };
    let (subject, i3) = match read_lp(s, i2) {
        Some(p) => p,
        None => {
            return None;
        },
    };
    if s.len() - i3 < 16 {
        return None;
    }
    let issued_at = get_u64_le(s, i3);
    let expires_at = get_u64_le(s, i3 + 8);
    let i4 = i3 + 16;
    if tag == 1 {
        let (display_name, i5) = match read_lp(s, i4) {
            Some(p) => p,
            None => {
                return None;
            },
        };
        if i5 >= s.len() {
            return None;
        }
        let rj = s[i5];
        if rj != 0 && rj != 1 {
            return None;
        }
        let (room, i6) = match read_lp(s, i5 + 1) {
            Some(p) => p,
            None => {
                return None;
            },
        };
        if i6 != s.len() {
            return None;
        }
        let c = ClaimSet {
            issuer,
            subject,
            issued_at,
            expires_at,
            scope: TokenScope::Access {
                display_name,
                grants: RoomGrants { room_join: rj == 1, room },
            },
        };
        proof {
            assert(dec_claims(s@) matches Some(x) && x =~= c@);
        }
        Some(c)
    } else if tag == 2 {
        let (body_digest, i5) = match read_lp(s, i4) {
            Some(p) => p,
            None => {
                return None;
            },
        };
        if i5 != s.len() {
            return None;
        }
        let c = ClaimSet {
            issuer,
            subject,
            issued_at,
            expires_at,
            scope: TokenScope::Webhook { body_digest },
        };
        proof {
            assert(dec_claims(s@) matches Some(x) && x =~= c@);
        }
        Some(c)
    } else {
        None
    }
}

} // verus!
