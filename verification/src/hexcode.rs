//! Lowercase hexadecimal byte encoding: the on-wire alphabet of signed
//! tokens, so that a token travels safely inside an HTTP header value.

use vstd::prelude::*;

verus! {

/// The ASCII bytes this codec emits: `0`-`9` and lowercase `a`-`f`.
pub open spec fn is_hex_digit(b: u8) -> bool {
    (48 <= b && b <= 57) || (97 <= b && b <= 102)
}

/// Numeric value of one hex digit byte.
pub open spec fn hex_val(b: u8) -> u8 {
    if 48 <= b && b <= 57 {
        (b - 48) as u8
    } else {
        (b - 87) as u8
    }
}

/// Hex digit byte for a value below 16.
pub open spec fn hex_digit(v: u8) -> u8 {
    if v < 10 {
        (v + 48) as u8
    } else {
        (v + 87) as u8
    }
}

/// Lowercase hex encoding of a byte string, two digits per byte,
/// high nibble first.
pub open spec fn hex_of(s: Seq<u8>) -> Seq<u8> {
    Seq::new(
        2 * s.len(),
        |i: int|
            if i % 2 == 0 {
                hex_digit((s[i / 2] / 16) as u8)
            } else {
                hex_digit((s[i / 2] % 16) as u8)
            },
    )
}

pub open spec fn all_hex(s: Seq<u8>) -> bool {
    forall|i: int| 0 <= i < s.len() ==> is_hex_digit(s[i])
}

/// Decoding of a hex string; `None` unless every byte is a hex digit
/// and the length is even.
pub open spec fn unhex(s: Seq<u8>) -> Option<Seq<u8>> {
    if s.len() % 2 == 0 && all_hex(s) {
        Some(Seq::new(s.len() / 2, |i: int| (16 * hex_val(s[2 * i]) + hex_val(s[2 * i + 1])) as u8))
    } else {
        None
    }
}

/// Decoding inverts encoding: the hex alphabet loses nothing.
pub proof fn lemma_unhex_hex(s: Seq<u8>)
    ensures
        unhex(hex_of(s)) == Some(s),
{
    let h = hex_of(s);
    assert forall|i: int| 0 <= i < h.len() implies is_hex_digit(h[i]) by {
        assert(0 <= i / 2 < s.len());
    }
    assert(h.len() % 2 == 0);
    let u = unhex(h)->Some_0;
    assert forall|i: int| 0 <= i < s.len() implies u[i] == s[i] by {
        assert(h[2 * i] == hex_digit((s[i] / 16) as u8));
        assert(h[2 * i + 1] == hex_digit((s[i] % 16) as u8));
        assert(hex_val(hex_digit((s[i] / 16) as u8)) == s[i] / 16);
        assert(hex_val(hex_digit((s[i] % 16) as u8)) == s[i] % 16);
    }
    assert(u =~= s);
}

/// Distinct hex digits denote distinct values.
pub proof fn lemma_hex_val_injective(x: u8, y: u8)
    requires
        is_hex_digit(x),
        is_hex_digit(y),
        x != y,
    ensures
        hex_val(x) != hex_val(y),
{
}

/// Encoding inverts decoding: a string the decoder accepts is the
/// exact hex spelling of what it decodes to.
pub proof fn lemma_hex_unhex(t: Seq<u8>, r: Seq<u8>)
    requires
        unhex(t) == Some(r),
    ensures
        hex_of(r) == t,
{
    assert forall|i: int| 0 <= i < t.len() implies hex_of(r)[i] == t[i] by {
        let j = i / 2;
        assert(r[j] == (16 * hex_val(t[2 * j]) + hex_val(t[2 * j + 1])) as u8);
        assert(is_hex_digit(t[2 * j]) && is_hex_digit(t[2 * j + 1]));
        assert(hex_val(t[2 * j]) < 16 && hex_val(t[2 * j + 1]) < 16);
        assert(r[j] / 16 == hex_val(t[2 * j]) && r[j] % 16 == hex_val(t[2 * j + 1]));
        assert(hex_digit(hex_val(t[2 * j])) == t[2 * j]);
        assert(hex_digit(hex_val(t[2 * j + 1])) == t[2 * j + 1]);
    }
    assert(hex_of(r) =~= t);
}

/// Hex encodes a byte string as lowercase ASCII hex digits.
pub fn hex_encode(src: &[u8]) -> (r: Vec<u8>)
    requires
        2 * src@.len() <= usize::MAX,
    ensures
        r@ == hex_of(src@),
{
    let mut out: Vec<u8> = Vec::new();
    let mut i: usize = 0;
    while i < src.len()
        invariant
            i <= src@.len(),
            2 * src@.len() <= usize::MAX,
            out@.len() == 2 * i,
            forall|j: int| 0 <= j < out@.len() ==> out@[j] == hex_of(src@)[j],
        decreases src@.len() - i,
    {
        let b = src[i];
        let hi = b / 16;
        let lo = b % 16;
        let d0 = if hi < 10 {
            hi + 48
        } else {
            hi + 87
        };
        let d1 = if lo < 10 {
            lo + 48
        } else {
            lo + 87
        };
        out.push(d0);
        out.push(d1);
        proof {
            assert(d0 == hex_digit((src@[i as int] / 16) as u8));
            assert(d1 == hex_digit((src@[i as int] % 16) as u8));
        }
        i += 1;
    }
    proof {
        assert(out@ =~= hex_of(src@));
    }
    out
}

/// Decodes lowercase (or digit) ASCII hex; `None` on any byte outside
/// the hex alphabet or an odd length.
pub fn hex_decode(src: &[u8]) -> (r: Option<Vec<u8>>)
    ensures
        match r {
            Some(v) => unhex(src@) == Some(v@),
            None => unhex(src@) is None,
        },
{
    if src.len() % 2 != 0 {
        return None;
    }
    let mut out: Vec<u8> = Vec::new();
    let mut i: usize = 0;
    while i < src.len()
        invariant
            src@.len() % 2 == 0,
            i <= src@.len(),
            i % 2 == 0,
            out@.len() == i / 2,
            forall|j: int| 0 <= j < i ==> is_hex_digit(src@[j]),
            forall|j: int|
                0 <= j < out@.len() ==> out@[j] == (16 * hex_val(src@[2 * j]) + hex_val(
                    src@[2 * j + 1],
                )) as u8,
        decreases src@.len() - i,
    {
        let b0 = src[i];
        let b1 = src[i + 1];
        let v0 = if 48 <= b0 && b0 <= 57 {
            b0 - 48
        } else if 97 <= b0 && b0 <= 102 {
            b0 - 87
        } else {
            return None;
        };
        let v1 = if 48 <= b1 && b1 <= 57 {
            b1 - 48
        } else if 97 <= b1 && b1 <= 102 {
            b1 - 87
        } else {
            return None;
        };
        proof {
            assert(v0 == hex_val(src@[i as int]));
            assert(v1 == hex_val(src@[i as int + 1]));
        }
        out.push(16 * v0 + v1);
        i += 2;
    }
    proof {
        assert(all_hex(src@));
        assert(out@ =~= unhex(src@)->Some_0);
    }
    Some(out)
}

} // verus!
