//! Big-endian integers as byte sequences.
use byteorder::{ByteOrder, NetworkEndian};
use vstd::prelude::*;

verus! {

/// `256^n`.
pub open spec fn pow256(n: nat) -> nat
    decreases n,
{
    if n == 0 {
        1
    } else {
        256 * pow256((n - 1) as nat)
    }
}

/// The `n` low-order bytes of `v`, most significant first.
pub open spec fn be_bytes(v: nat, n: nat) -> Seq<u8>
    decreases n,
{
    if n == 0 {
        Seq::empty()
    } else {
        be_bytes(v / 256, (n - 1) as nat).push((v % 256) as u8)
    }
}

/// The number that the bytes `s` denote, most significant first.
pub open spec fn be_value(s: Seq<u8>) -> nat
    decreases s.len(),
{
    if s.len() == 0 {
        0
    } else {
        be_value(s.drop_last()) * 256 + s.last() as nat
    }
}

pub proof fn lemma_be_bytes_len(v: nat, n: nat)
    ensures
        be_bytes(v, n).len() == n,
    decreases n,
{
    if n > 0 {
        lemma_be_bytes_len(v / 256, (n - 1) as nat);
    }
}

pub proof fn lemma_pow256_positive(n: nat)
    ensures
        pow256(n) > 0,
    decreases n,
{
    if n > 0 {
        lemma_pow256_positive((n - 1) as nat);
    }
}

/// Reading back the bytes of a number that fits gives the number.
pub proof fn lemma_be_value_of_bytes(v: nat, n: nat)
    requires
        v < pow256(n),
    ensures
        be_value(be_bytes(v, n)) == v,
    decreases n,
{
    if n > 0 {
        let m = (n - 1) as nat;
        lemma_pow256_positive(m);
        assert(v / 256 < pow256(m)) by (nonlinear_arith)
            requires
                v < 256 * pow256(m),
        ;
        lemma_be_value_of_bytes(v / 256, m);
        let s = be_bytes(v, n);
        assert(s.drop_last() =~= be_bytes(v / 256, m));
        assert(v == (v / 256) * 256 + v % 256) by (nonlinear_arith);
    }
}

/// The value of `n` bytes is below `256^n`.
pub proof fn lemma_be_value_bound(s: Seq<u8>)
    ensures
        be_value(s) < pow256(s.len()),
    decreases s.len(),
{
    if s.len() > 0 {
        lemma_be_value_bound(s.drop_last());
        let a = be_value(s.drop_last());
        let p = pow256((s.len() - 1) as nat);
        let b = s.last() as nat;
        assert(a * 256 + b < 256 * p) by (nonlinear_arith)
            requires
                a < p,
                b < 256,
        ;
    }
}

/// Writing out the value of `s` in `s.len()` bytes gives `s` back.
pub proof fn lemma_be_bytes_of_value(s: Seq<u8>)
    ensures
        be_bytes(be_value(s), s.len()) == s,
    decreases s.len(),
{
    if s.len() > 0 {
        let init = s.drop_last();
        lemma_be_bytes_of_value(init);
        let v = be_value(s);
        let a = be_value(init);
        let b = s.last() as nat;
        assert(v / 256 == a && v % 256 == b) by (nonlinear_arith)
            requires
                v == a * 256 + b,
                b < 256,
        ;
        assert(be_bytes(v, s.len()) =~= s);
    }
}

/// Two numbers that fit in `n` bytes have the same bytes only if they are equal.
pub proof fn lemma_be_bytes_injective(a: nat, b: nat, n: nat)
    requires
        a < pow256(n),
        b < pow256(n),
        be_bytes(a, n) == be_bytes(b, n),
    ensures
        a == b,
{
    lemma_be_value_of_bytes(a, n);
    lemma_be_value_of_bytes(b, n);
}

pub proof fn lemma_pow256_values()
    ensures
        pow256(4) == 0x1_0000_0000,
        pow256(8) == 0x1_0000_0000_0000_0000,
{
    reveal_with_fuel(pow256, 9);
}

/// Relies on byteorder's `NetworkEndian::write_u32`: the four bytes of `v`,
/// most significant first.
#[verifier::external_body]
pub(crate) fn be_u32_bytes(v: u32) -> (r: Vec<u8>)
    ensures
        r@ == be_bytes(v as nat, 4),
{
    let mut buf = vec![0u8; 4];
    NetworkEndian::write_u32(&mut buf, v);
    buf
}

/// Relies on byteorder's `NetworkEndian::write_u64`: the eight bytes of `v`,
/// most significant first.
#[verifier::external_body]
pub(crate) fn be_u64_bytes(v: u64) -> (r: Vec<u8>)
    ensures
        r@ == be_bytes(v as nat, 8),
{
    let mut buf = vec![0u8; 8];
    NetworkEndian::write_u64(&mut buf, v);
    buf
}

/// Relies on byteorder's `NetworkEndian::read_u32`: the number that four
/// bytes denote, most significant first. It panics on fewer than four bytes.
#[verifier::external_body]
pub(crate) fn read_be_u32(buf: &[u8]) -> (r: u32)
    requires
        buf@.len() == 4,
    ensures
        r as nat == be_value(buf@),
{
    NetworkEndian::read_u32(buf)
}

} // verus!
