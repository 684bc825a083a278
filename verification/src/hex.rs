//! Lowercase hexadecimal encoding of byte strings.
//!
//! Transaction payloads carry their arguments hex-encoded, so that the
//! argument separator byte can never occur inside an encoded argument.

use vstd::prelude::*;

verus! {

/// The ASCII byte for the hex digit of a value below 16 (lowercase).
pub open spec fn spec_hex_digit(n: u8) -> u8 {
    if n < 10 {
        (0x30 + n) as u8
    } else {
        (0x57 + n) as u8
    }
}

/// Whether a byte is an ASCII lowercase hex digit.
pub open spec fn is_hex_digit_byte(c: u8) -> bool {
    (0x30 <= c && c <= 0x39) || (0x61 <= c && c <= 0x66)
}

/// The value of an ASCII lowercase hex digit.
pub open spec fn spec_hex_val(c: u8) -> u8 {
    if 0x30 <= c && c <= 0x39 {
        (c - 0x30) as u8
    } else {
        (c - 0x57) as u8
    }
}

/// The hex encoding of a byte string: two digits per byte, high nibble first.
pub open spec fn hex_of(s: Seq<u8>) -> Seq<u8> {
    Seq::new(2 * s.len(), |i: int|
        if i % 2 == 0 {
            spec_hex_digit(s[i / 2] / 16)
        } else {
            spec_hex_digit(s[i / 2] % 16)
        })
}

/// Whether a byte string is a well-formed hex encoding: even length,
/// lowercase hex digits throughout.
pub open spec fn is_hex_seq(s: Seq<u8>) -> bool {
    &&& s.len() % 2 == 0
    &&& forall|i: int| 0 <= i < s.len() ==> is_hex_digit_byte(s[i])
}

proof fn lemma_digit_val_roundtrip(n: u8)
    requires
        n < 16,
    ensures
        is_hex_digit_byte(spec_hex_digit(n)),
        spec_hex_val(spec_hex_digit(n)) == n,
{
}

/// A hex encoding is always a well-formed hex string.
pub proof fn lemma_hex_of_is_hex_seq(s: Seq<u8>)
    ensures
        is_hex_seq(hex_of(s)),
{
    assert forall|i: int| 0 <= i < hex_of(s).len() implies is_hex_digit_byte(hex_of(s)[i]) by {
        if i % 2 == 0 {
            lemma_digit_val_roundtrip(s[i / 2] / 16);
        } else {
            lemma_digit_val_roundtrip(s[i / 2] % 16);
        }
    }
}

/// Hex encoding is injective: equal encodings come from equal byte strings.
pub proof fn lemma_hex_of_injective(a: Seq<u8>, b: Seq<u8>)
    requires
        hex_of(a) == hex_of(b),
    ensures
        a == b,
{
    assert(hex_of(a).len() == hex_of(b).len());
    assert(hex_of(a).len() == 2 * a.len());
    assert(hex_of(b).len() == 2 * b.len());
    assert(2 * a.len() == 2 * b.len());
    assert(a.len() == b.len());
    assert forall|i: int| 0 <= i < a.len() implies a[i] == b[i] by {
        assert((2 * i) % 2 == 0 && (2 * i) / 2 == i && (2 * i + 1) % 2 == 1 && (2 * i + 1) / 2
            == i) by (nonlinear_arith)
            requires 0 <= i;
        assert(hex_of(a)[2 * i] == spec_hex_digit(a[i] / 16));
        assert(hex_of(a)[2 * i + 1] == spec_hex_digit(a[i] % 16));
        assert(hex_of(b)[2 * i] == spec_hex_digit(b[i] / 16));
        assert(hex_of(b)[2 * i + 1] == spec_hex_digit(b[i] % 16));
        lemma_digit_val_roundtrip(a[i] / 16);
        lemma_digit_val_roundtrip(a[i] % 16);
        lemma_digit_val_roundtrip(b[i] / 16);
        lemma_digit_val_roundtrip(b[i] % 16);
        assert(a[i] == (a[i] / 16) * 16 + a[i] % 16) by (nonlinear_arith);
        assert(b[i] == (b[i] / 16) * 16 + b[i] % 16) by (nonlinear_arith);
    }
    assert(a =~= b);
}

/// The bytes a well-formed hex string stands for.
pub open spec fn unhex(s: Seq<u8>) -> Seq<u8> {
    Seq::new(s.len() / 2, |i: int| (spec_hex_val(s[2 * i]) * 16 + spec_hex_val(s[2 * i + 1])) as u8)
}

/// Decoding inverts encoding at the spec level.
pub proof fn lemma_unhex_hex_of(b: Seq<u8>)
    ensures
        unhex(hex_of(b)) == b,
{
    let h = hex_of(b);
    assert(h.len() / 2 == b.len());
    assert forall|i: int| 0 <= i < b.len() implies unhex(h)[i] == b[i] by {
        assert((2 * i) % 2 == 0 && (2 * i) / 2 == i && (2 * i + 1) % 2 == 1 && (2 * i + 1) / 2
            == i) by (nonlinear_arith)
            requires 0 <= i;
        assert(h[2 * i] == spec_hex_digit(b[i] / 16));
        assert(h[2 * i + 1] == spec_hex_digit(b[i] % 16));
        lemma_digit_val_roundtrip(b[i] / 16);
        lemma_digit_val_roundtrip(b[i] % 16);
        assert((b[i] / 16) * 16 + b[i] % 16 == b[i]) by (nonlinear_arith);
    }
    assert(unhex(h) =~= b);
}

/// Copy a half-open range of a byte vector.
pub fn copy_range(v: &Vec<u8>, from: usize, to: usize) -> (r: Vec<u8>)
    requires
        from <= to <= v@.len(),
    ensures
        r@ == v@.subrange(from as int, to as int),
{
    let mut out: Vec<u8> = Vec::new();
    let mut i: usize = from;
    while i < to
        invariant
            from <= i <= to <= v@.len(),
            out@ == v@.subrange(from as int, i as int),
        decreases to - i,
    {
        out.push(v[i]);
        i = i + 1;
        proof {
            assert(out@ =~= v@.subrange(from as int, i as int));
        }
    }
    out
}

/// Encode a byte string as lowercase hex.
pub fn encode_hex(bytes: &Vec<u8>) -> (r: Vec<u8>)
    ensures
        r@ == hex_of(bytes@),
{
    let mut out: Vec<u8> = Vec::new();
    let mut i: usize = 0;
    while i < bytes.len()
        invariant
            i <= bytes.len(),
            out@ == hex_of(bytes@.take(i as int)),
        decreases bytes.len() - i,
    {
        let b = bytes[i];
        out.push(hex_digit(b / 16));
        out.push(hex_digit(b % 16));
        i = i + 1;
        proof {
            assert(out@ =~= hex_of(bytes@.take(i as int)));
        }
    }
    proof {
        assert(bytes@.take(bytes@.len() as int) =~= bytes@);
    }
    out
}

fn hex_digit(n: u8) -> (r: u8)
    requires
        n < 16,
    ensures
        r == spec_hex_digit(n),
{
    if n < 10 {
        0x30 + n
    } else {
        0x57 + n
    }
}

fn hex_val(c: u8) -> (r: Option<u8>)
    ensures
        match r {
            Some(v) => is_hex_digit_byte(c) && v == spec_hex_val(c) && v < 16,
            None => !is_hex_digit_byte(c),
        },
{
    if 0x30 <= c && c <= 0x39 {
        Some(c - 0x30)
    } else if 0x61 <= c && c <= 0x66 {
        Some(c - 0x57)
    } else {
        None
    }
}

/// Decode a lowercase hex string back into bytes.
///
/// Returns `None` exactly when the input is not a well-formed hex string.
/// On success the input is the hex encoding of the result, so together with
/// `lemma_hex_of_injective` decoding inverts `encode_hex`.
pub fn decode_hex(s: &Vec<u8>) -> (r: Option<Vec<u8>>)
    ensures
        match r {
            Some(v) => s@ == hex_of(v@),
            None => !is_hex_seq(s@),
        },
        r is Some <==> is_hex_seq(s@),
{
    if s.len() % 2 != 0 {
        return None;
    }
    let mut out: Vec<u8> = Vec::new();
    let mut i: usize = 0;
    while i + 1 < s.len() + 1
        invariant
            i % 2 == 0,
            i <= s.len(),
            s@.len() % 2 == 0,
            out@.len() == i / 2,
            hex_of(out@) =~= s@.take(i as int),
            forall|j: int| 0 <= j < i ==> is_hex_digit_byte(s@[j]),
        decreases s.len() - i,
    {
        let hi = match hex_val(s[i]) {
            Some(v) => v,
            None => {
                return None;
            },
        };
        let lo = match hex_val(s[i + 1]) {
            Some(v) => v,
            None => {
                return None;
            },
        };
        out.push(16 * hi + lo);
        i = i + 2;
        proof {
            let b = (16 * hi + lo) as u8;
            assert(b / 16 == hi && b % 16 == lo) by (nonlinear_arith)
                requires hi < 16 && lo < 16 && b == 16 * hi + lo;
            lemma_digit_val_roundtrip(hi);
            lemma_digit_val_roundtrip(lo);
            assert(hex_of(out@) =~= s@.take(i as int));
        }
    }
    proof {
        assert(s@.take(s@.len() as int) =~= s@);
        lemma_hex_of_is_hex_seq(out@);
    }
    Some(out)
}

} // verus!
