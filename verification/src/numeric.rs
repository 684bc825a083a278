//! Top-level numeric encoding: an unsigned integer as its minimal
//! big-endian byte string (the empty string for zero).
//!
//! Encoded arguments and decoded query results both use this form.

use vstd::prelude::*;

verus! {

/// The value of a big-endian byte string.
pub open spec fn be_val(s: Seq<u8>) -> nat
    decreases s.len(),
{
    if s.len() == 0 {
        0
    } else {
        (be_val(s.drop_last()) * 256 + s.last()) as nat
    }
}

/// A minimal encoding has no leading zero byte.
pub open spec fn is_minimal_be(s: Seq<u8>) -> bool {
    s.len() == 0 || s[0] != 0
}

/// 256 raised to a power.
pub open spec fn pow256(n: nat) -> nat
    decreases n,
{
    if n == 0 {
        1
    } else {
        256 * pow256((n - 1) as nat)
    }
}

pub proof fn lemma_pow256_increases(a: nat, b: nat)
    requires
        a <= b,
    ensures
        pow256(a) <= pow256(b),
    decreases b,
{
    if a < b {
        lemma_pow256_increases(a, (b - 1) as nat);
        assert(pow256(b) == 256 * pow256((b - 1) as nat));
    }
}

/// A byte string of length n holds a value below 256^n.
pub proof fn lemma_be_val_bound(s: Seq<u8>)
    ensures
        be_val(s) < pow256(s.len()),
    decreases s.len(),
{
    if s.len() > 0 {
        lemma_be_val_bound(s.drop_last());
        assert(be_val(s.drop_last()) * 256 <= (pow256((s.len() - 1) as nat) - 1) * 256)
            by (nonlinear_arith)
            requires be_val(s.drop_last()) <= pow256((s.len() - 1) as nat) - 1;
    }
}

/// The minimal big-endian byte string of an unsigned value.
pub open spec fn be_of(v: nat) -> Seq<u8>
    decreases v,
{
    if v == 0 {
        Seq::empty()
    } else {
        be_of(v / 256).push((v % 256) as u8)
    }
}

/// Encode an unsigned value as its minimal big-endian byte string.
pub fn top_encode_u128(v: u128) -> (r: Vec<u8>)
    ensures
        r@ == be_of(v as nat),
        be_val(r@) == v,
        is_minimal_be(r@),
        v == 0 ==> r@.len() == 0,
        v > 0 ==> pow256((r@.len() - 1) as nat) <= v,
        r@.len() <= 16,
    decreases v,
{
    if v == 0 {
        Vec::new()
    } else {
        let mut r = top_encode_u128(v / 256);
        let last: u8 = (v % 256) as u8;
        let ghost prev = r@;
        r.push(last);
        proof {
            assert(r@.drop_last() =~= prev);
            assert(be_val(prev) * 256 + (v % 256) == v) by (nonlinear_arith)
                requires be_val(prev) == v / 256 && v > 0;
            if v / 256 == 0 {
                assert(r@[0] == last);
            } else {
                assert(r@[0] == prev[0]);
                assert(pow256((r@.len() - 1) as nat) == 256 * pow256((prev.len() - 1) as nat));
                assert(256 * pow256((prev.len() - 1) as nat) <= 256 * (v / 256))
                    by (nonlinear_arith)
                    requires pow256((prev.len() - 1) as nat) <= v / 256;
                assert(256 * (v / 256) <= v) by (nonlinear_arith)
                    requires v > 0;
            }
            if r@.len() > 16 {
                lemma_pow256_increases(16, (r@.len() - 1) as nat);
                lemma_pow256_16();
            }
        }
        r
    }
}

pub proof fn lemma_pow256_16()
    ensures
        pow256(16) == 0x100000000000000000000000000000000,
{
    reveal_with_fuel(pow256, 17);
}

/// The minimal big-endian encoding decodes back to its value, carries no
/// leading zero, and is as short as the value allows.
pub proof fn lemma_be_of_props(v: nat)
    ensures
        be_val(be_of(v)) == v,
        is_minimal_be(be_of(v)),
        v == 0 ==> be_of(v).len() == 0,
        v > 0 ==> pow256((be_of(v).len() - 1) as nat) <= v,
    decreases v,
{
    if v > 0 {
        lemma_be_of_props(v / 256);
        let p = be_of(v / 256);
        assert(be_of(v) == p.push((v % 256) as u8));
        assert(be_of(v).drop_last() =~= p);
        assert(be_val(p) * 256 + v % 256 == v) by (nonlinear_arith)
            requires be_val(p) == v / 256;
        if v / 256 == 0 {
            assert(p.len() == 0);
            assert(be_of(v)[0] == (v % 256) as u8);
            assert(v % 256 == v);
        } else {
            assert(be_of(v)[0] == p[0]);
            assert(pow256((be_of(v).len() - 1) as nat) == 256 * pow256((p.len() - 1) as nat));
            assert(256 * pow256((p.len() - 1) as nat) <= 256 * (v / 256)) by (nonlinear_arith)
                requires pow256((p.len() - 1) as nat) <= v / 256;
            assert(256 * (v / 256) <= v) by (nonlinear_arith)
                requires v > 0;
        }
    }
}

/// A string of zero bytes.
pub open spec fn zero_bytes(n: nat) -> Seq<u8> {
    Seq::new(n, |i: int| 0u8)
}

/// A string of zero bytes stands for zero.
pub proof fn lemma_be_val_zeros(n: nat)
    ensures
        be_val(zero_bytes(n)) == 0,
    decreases n,
{
    if n > 0 {
        lemma_be_val_zeros((n - 1) as nat);
        assert(zero_bytes(n).drop_last() =~= zero_bytes((n - 1) as nat));
    }
}

/// Leading zero bytes do not change the value.
pub proof fn lemma_be_val_zero_prefix(n: nat, s: Seq<u8>)
    ensures
        be_val(zero_bytes(n) + s) == be_val(s),
    decreases s.len(),
{
    if s.len() == 0 {
        assert(zero_bytes(n) + s =~= zero_bytes(n));
        lemma_be_val_zeros(n);
    } else {
        lemma_be_val_zero_prefix(n, s.drop_last());
        assert((zero_bytes(n) + s).drop_last() =~= zero_bytes(n) + s.drop_last());
        assert((zero_bytes(n) + s).last() == s.last());
    }
}

/// A value below 256^n encodes into at most n bytes.
pub proof fn lemma_be_of_len(v: nat, n: nat)
    requires
        v < pow256(n),
    ensures
        be_of(v).len() <= n,
{
    lemma_be_of_props(v);
    if be_of(v).len() > n {
        lemma_pow256_increases(n, (be_of(v).len() - 1) as nat);
    }
}

/// A value this client can hold encodes into at most sixteen bytes.
pub proof fn lemma_be_of_short(v: nat)
    requires
        v < pow256(16),
    ensures
        be_of(v).len() <= 16,
{
    lemma_be_of_props(v);
    if be_of(v).len() > 16 {
        lemma_pow256_increases(16, (be_of(v).len() - 1) as nat);
    }
}

/// Decode a big-endian byte string into an unsigned value.
///
/// Fails exactly when the string is longer than sixteen bytes, the widest
/// value this client can hold; leading zeros are accepted.
pub fn top_decode_u128(b: &Vec<u8>) -> (r: Option<u128>)
    ensures
        match r {
            Some(v) => v == be_val(b@),
            None => true,
        },
        r is Some <==> b@.len() <= 16,
{
    if b.len() > 16 {
        return None;
    }
    let mut acc: u128 = 0;
    let mut i: usize = 0;
    while i < b.len()
        invariant
            i <= b.len() <= 16,
            acc == be_val(b@.take(i as int)),
            acc < pow256(i as nat),
        decreases b.len() - i,
    {
        proof {
            assert(b@.take(i + 1).drop_last() =~= b@.take(i as int));
            assert(acc * 256 + 256 <= pow256(i as nat) * 256) by (nonlinear_arith)
                requires acc < pow256(i as nat);
            lemma_pow256_increases((i + 1) as nat, 16);
            lemma_pow256_16();
        }
        acc = acc * 256 + (b[i] as u128);
        i = i + 1;
    }
    proof {
        assert(b@.take(b@.len() as int) =~= b@);
    }
    Some(acc)
}

} // verus!
