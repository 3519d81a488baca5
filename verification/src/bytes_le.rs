//! Little-endian byte strings.

use vstd::prelude::*;

verus! {

/// The `n` low-order bytes of `v`, least significant first.
pub open spec fn le_bytes(v: nat, n: nat) -> Seq<u8>
    decreases n,
{
    if n == 0 {
        Seq::empty()
    } else {
        seq![(v % 256) as u8] + le_bytes(v / 256, (n - 1) as nat)
    }
}

/// The number that a little-endian byte string denotes.
pub open spec fn le_value(b: Seq<u8>) -> nat
    decreases b.len(),
{
    if b.len() == 0 {
        0
    } else {
        b[0] as nat + 256 * le_value(b.drop_first())
    }
}

/// `256` to the power `n`.
pub open spec fn pow256(n: nat) -> nat
    decreases n,
{
    if n == 0 {
        1
    } else {
        256 * pow256((n - 1) as nat)
    }
}

/// Powers of 256 for the field widths the frame format uses.
pub proof fn lemma_pow256_values()
    ensures
        pow256(1) == 256,
        pow256(2) == 65536,
        pow256(3) == 16777216,
        pow256(4) == 4294967296,
        pow256(8) == 18446744073709551616,
{
    assert(pow256(0) == 1);
    assert(pow256(1) == 256);
    assert(pow256(2) == 65536);
    assert(pow256(3) == 16777216);
    assert(pow256(4) == 4294967296);
    assert(pow256(5) == 1099511627776);
    assert(pow256(6) == 281474976710656);
    assert(pow256(7) == 72057594037927936);
    assert(pow256(8) == 18446744073709551616);
}

/// `le_bytes(v, n)` has `n` bytes.
pub proof fn lemma_le_bytes_len(v: nat, n: nat)
    ensures
        le_bytes(v, n).len() == n,
    decreases n,
{
    if n > 0 {
        lemma_le_bytes_len(v / 256, (n - 1) as nat);
    }
}

/// One more byte of little-endian encoding appends the next byte of `v`.
pub proof fn lemma_le_bytes_extend(v: nat, n: nat)
    ensures
        le_bytes(v, n + 1) == le_bytes(v, n) + seq![((v / pow256(n)) % 256) as u8],
    decreases n,
{
    if n == 0 {
        assert(pow256(0) == 1);
        assert(v / pow256(0) == v);
        assert(le_bytes(v / 256, 0) =~= Seq::<u8>::empty());
        assert(le_bytes(v, 1) =~= seq![(v % 256) as u8]);
        assert(le_bytes(v, 0) =~= Seq::<u8>::empty());
    } else {
        let m = (n - 1) as nat;
        lemma_le_bytes_extend(v / 256, m);
        lemma_pow256_positive(m);
        vstd::arithmetic::div_mod::lemma_div_denominator(v as int, 256, pow256(m) as int);
        assert(v / 256 / pow256(m) == v / pow256(n));
        let x = seq![((v / pow256(n)) % 256) as u8];
        assert(le_bytes(v / 256, n) == le_bytes(v / 256, m) + x);
        assert(le_bytes(v, n + 1) == seq![(v % 256) as u8] + le_bytes(v / 256, n));
        assert(le_bytes(v, n) == seq![(v % 256) as u8] + le_bytes(v / 256, m));
        assert(le_bytes(v, n + 1) =~= le_bytes(v, n) + x);
    }
}

/// Powers of 256 are positive.
pub proof fn lemma_pow256_positive(n: nat)
    ensures
        pow256(n) > 0,
    decreases n,
{
    if n > 0 {
        lemma_pow256_positive((n - 1) as nat);
    }
}

/// Encoding `v` in `n` bytes and reading the bytes back gives `v`, when `v` fits.
pub proof fn lemma_le_roundtrip(v: nat, n: nat)
    requires
        v < pow256(n),
    ensures
        le_bytes(v, n).len() == n,
        le_value(le_bytes(v, n)) == v,
    decreases n,
{
    if n > 0 {
        let m = (n - 1) as nat;
        assert(v / 256 < pow256(m)) by (nonlinear_arith)
            requires
                v < 256 * pow256(m),
        ;
        lemma_le_roundtrip(v / 256, m);
        let b = le_bytes(v, n);
        assert(b.drop_first() =~= le_bytes(v / 256, m));
        assert(v == v % 256 + 256 * (v / 256)) by (nonlinear_arith);
    }
}

/// Appends the `n` low-order bytes of `v` to `out`, least significant first.
pub fn push_le(out: &mut Vec<u8>, v: u64, n: usize)
    ensures
        final(out)@ == old(out)@ + le_bytes(v as nat, n as nat),
{
    let mut x: u64 = v;
    let mut i: usize = 0;
    while i < n
        invariant
            i <= n,
            out@ + le_bytes(x as nat, (n - i) as nat) == old(out)@ + le_bytes(v as nat, n as nat),
        decreases n - i,
    {
        let ghost before = out@;
        let ghost rest = (n - i - 1) as nat;
        assert(le_bytes(x as nat, (n - i) as nat) == seq![(x % 256) as u8] + le_bytes(
            (x / 256) as nat,
            rest,
        ));
        out.push((x % 256) as u8);
        assert(out@ + le_bytes((x / 256) as nat, rest) =~= before + (seq![(x % 256) as u8]
            + le_bytes((x / 256) as nat, rest)));
        x = x / 256;
        i = i + 1;
    }
    assert(le_bytes(x as nat, 0) =~= Seq::<u8>::empty());
    assert(out@ + le_bytes(x as nat, 0) =~= out@);
}

} // verus!
