//! Fixed-width little-endian encoding of 128-bit integers.

use vstd::prelude::*;

verus! {

/// 256 raised to the power `n`.
pub open spec fn pow256(n: nat) -> nat
    decreases n,
{
    if n == 0 {
        1
    } else {
        256 * pow256((n - 1) as nat)
    }
}

/// The number that `bytes` encode, least significant byte first.
pub open spec fn le_value(bytes: Seq<u8>) -> nat
    decreases bytes.len(),
{
    if bytes.len() == 0 {
        0
    } else {
        bytes[0] as nat + 256 * le_value(bytes.drop_first())
    }
}

/// Appending a byte adds it at the weight of its position.
pub proof fn lemma_le_value_push(bytes: Seq<u8>, b: u8)
    ensures
        le_value(bytes.push(b)) == le_value(bytes) + pow256(bytes.len()) * b,
    decreases bytes.len(),
{
    let pushed = bytes.push(b);
    assert(pushed[0] == if bytes.len() == 0 { b } else { bytes[0] });
    if bytes.len() == 0 {
        assert(pushed.drop_first() =~= Seq::<u8>::empty());
        assert(le_value(pushed.drop_first()) == 0);
        assert(le_value(bytes) == 0);
        assert(pow256(0) == 1);
        assert(le_value(pushed) == b);
    } else {
        let rest = bytes.drop_first();
        assert(pushed.drop_first() =~= rest.push(b));
        lemma_le_value_push(rest, b);
        let p = pow256(rest.len());
        assert(pow256(bytes.len()) == 256 * p);
        assert(256 * (le_value(rest) + p * b) == 256 * le_value(rest) + (256 * p) * b)
            by (nonlinear_arith);
        assert(le_value(pushed) == bytes[0] + 256 * le_value(rest.push(b)));
        assert(le_value(bytes) == bytes[0] + 256 * le_value(rest));
    }
}

/// A string of `n` bytes encodes a number below `256^n`.
pub proof fn lemma_le_value_bound(bytes: Seq<u8>)
    ensures
        le_value(bytes) < pow256(bytes.len()),
    decreases bytes.len(),
{
    if bytes.len() > 0 {
        let rest = bytes.drop_first();
        lemma_le_value_bound(rest);
        let v = le_value(rest);
        let p = pow256(rest.len());
        assert(256 * v <= 256 * (p - 1)) by (nonlinear_arith)
            requires
                v < p,
        ;
    }
}

/// The `len` bytes that encode `v`, least significant first.
pub open spec fn le_bytes(v: nat, len: nat) -> Seq<u8>
    decreases len,
{
    if len == 0 {
        Seq::empty()
    } else {
        seq![(v % 256) as u8] + le_bytes(v / 256, (len - 1) as nat)
    }
}

/// Encoding the number that `s` encodes gives `s` back.
pub proof fn lemma_le_bytes_of_value(s: Seq<u8>)
    ensures
        le_bytes(le_value(s), s.len()) == s,
    decreases s.len(),
{
    if s.len() > 0 {
        let rest = s.drop_first();
        let x = le_value(rest);
        let b = s[0] as nat;
        assert((b + 256 * x) % 256 == b && (b + 256 * x) / 256 == x) by (nonlinear_arith)
            requires
                0 <= b < 256,
                x >= 0,
        ;
        lemma_le_bytes_of_value(rest);
        assert(le_bytes(le_value(s), s.len()) =~= s);
    } else {
        assert(le_bytes(le_value(s), s.len()) =~= s);
    }
}

/// An encoding into `len` bytes has `len` bytes.
pub proof fn lemma_le_bytes_len(v: nat, len: nat)
    ensures
        le_bytes(v, len).len() == len,
    decreases len,
{
    if len > 0 {
        lemma_le_bytes_len(v / 256, (len - 1) as nat);
    }
}

/// Copies a vector of exactly `N` bytes into an array.
pub fn array_from_vec<const N: usize>(v: &Vec<u8>) -> (r: [u8; N])
    requires
        v@.len() == N,
    ensures
        r@ == v@,
{
    let mut r = [0u8; N];
    let mut i: usize = 0;
    while i < N
        invariant
            i <= N,
            r@.len() == N,
            v@.len() == N,
            forall|j: int| 0 <= j < i ==> r@[j] == v@[j],
        decreases N - i,
    {
        r[i] = v[i];
        i = i + 1;
    }
    assert(r@ =~= v@);
    r
}

/// Decoding the `len`-byte encoding of a number below `256^len` gives the number back.
pub proof fn lemma_le_value_of_le_bytes(v: nat, len: nat)
    requires
        v < pow256(len),
    ensures
        le_value(le_bytes(v, len)) == v,
    decreases len,
{
    if len > 0 {
        let q = v / 256;
        let p = pow256((len - 1) as nat);
        assert(q < p && v % 256 + 256 * q == v) by (nonlinear_arith)
            requires
                v < 256 * p,
                q == v / 256,
        ;
        lemma_le_value_of_le_bytes(q, (len - 1) as nat);
        assert(le_bytes(v, len).drop_first() =~= le_bytes(q, (len - 1) as nat));
    } else {
        assert(v == 0);
    }
}

/// `256^16` is the size of the `u128` range.
pub proof fn lemma_pow256_16()
    ensures
        pow256(16) == u128::MAX as nat + 1,
{
    reveal_with_fuel(pow256, 17);
}

/// Encodes `v` as 16 bytes, least significant first.
pub fn u128_to_le_bytes(v: u128) -> (r: [u8; 16])
    ensures
        le_value(r@) == v,
        r@ == le_bytes(v as nat, 16),
{
    let mut r = [0u8; 16];
    let mut x: u128 = v;
    let mut i: usize = 0;
    assert(r@.subrange(0, 0) =~= Seq::<u8>::empty());
    assert(le_value(Seq::<u8>::empty()) == 0);
    assert(pow256(0) == 1);
    assert(v == le_value(r@.subrange(0, 0)) + pow256(0) * x);
    while i < 16
        invariant
            i <= 16,
            r@.len() == 16,
            v == le_value(r@.subrange(0, i as int)) + pow256(i as nat) * x,
        decreases 16 - i,
    {
        let b = (x % 256) as u8;
        let ghost prefix = r@.subrange(0, i as int);
        proof {
            lemma_le_value_push(prefix, b);
        }
        r[i] = b;
        assert(r@.subrange(0, i + 1) =~= prefix.push(b));
        let ghost old_x = x;
        x = x / 256;
        let ghost p = pow256(i as nat);
        assert(pow256((i + 1) as nat) == 256 * p);
        assert(p * old_x == p * b + (256 * p) * x) by (nonlinear_arith)
            requires
                old_x == 256 * x + b,
        ;
        i = i + 1;
    }
    proof {
        lemma_pow256_16();
        assert(r@.subrange(0, 16) =~= r@);
        assert(x == 0) by (nonlinear_arith)
            requires
                v == le_value(r@) + (u128::MAX as nat + 1) * x,
                v <= u128::MAX,
                x >= 0,
        ;
        lemma_le_bytes_of_value(r@);
    }
    r
}

/// Decodes 16 bytes, least significant first.
pub fn u128_from_le_bytes(bytes: [u8; 16]) -> (r: u128)
    ensures
        r == le_value(bytes@),
{
    let mut acc: u128 = 0;
    let mut i: usize = 16;
    while i > 0
        invariant
            i <= 16,
            bytes@.len() == 16,
            acc == le_value(bytes@.subrange(i as int, 16)),
        decreases i,
    {
        let ghost tail = bytes@.subrange(i as int, 16);
        let ghost longer = bytes@.subrange(i - 1, 16);
        assert(longer.drop_first() =~= tail);
        proof {
            lemma_le_value_bound(longer);
            lemma_pow256_16();
            if i > 1 {
                lemma_pow256_monotonic(longer.len(), 16);
            }
        }
        acc = acc * 256 + bytes[i - 1] as u128;
        i = i - 1;
    }
    assert(bytes@.subrange(0, 16) =~= bytes@);
    acc
}

/// `256^m <= 256^n` whenever `m <= n`.
pub proof fn lemma_pow256_monotonic(m: nat, n: nat)
    requires
        m <= n,
    ensures
        pow256(m) <= pow256(n),
    decreases n - m,
{
    if m < n {
        lemma_pow256_monotonic(m, (n - 1) as nat);
    }
}

} // verus!
