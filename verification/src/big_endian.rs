//! Big-endian bytes: the byte form in which 128-bit gas limits and fees are
//! packed into words and calldata.

use vstd::arithmetic::power::{lemma_pow0, lemma_pow1, lemma_pow_adds, pow};
use vstd::prelude::*;

use crate::primitives::B256;

verus! {

/// The number that `bytes` spells with the most significant byte first.
pub open spec fn be_value(bytes: Seq<u8>) -> nat
    decreases bytes.len(),
{
    if bytes.len() == 0 {
        0
    } else {
        be_value(bytes.drop_last()) * 256 + bytes.last() as nat
    }
}

/// The `len` least significant bytes of `x`, most significant byte first.
pub open spec fn be_bytes(x: nat, len: nat) -> Seq<u8>
    decreases len,
{
    if len == 0 {
        Seq::empty()
    } else {
        be_bytes(x / 256, (len - 1) as nat).push((x % 256) as u8)
    }
}

/// The 32-byte word made of two 128-bit integers, each in sixteen big-endian
/// bytes.
pub open spec fn packed_pair(high: u128, low: u128) -> Seq<u8> {
    be_bytes(high as nat, 16) + be_bytes(low as nat, 16)
}

/// `be_bytes` yields as many bytes as it is asked for.
pub proof fn lemma_be_bytes_len(x: nat, len: nat)
    ensures
        be_bytes(x, len).len() == len,
    decreases len,
{
    if len > 0 {
        lemma_be_bytes_len(x / 256, (len - 1) as nat);
    }
}

/// `len` bytes spell a number below `256^len`.
pub proof fn lemma_be_value_bound(bytes: Seq<u8>)
    ensures
        be_value(bytes) < pow(256, bytes.len()),
    decreases bytes.len(),
{
    lemma_pow0(256);
    if bytes.len() > 0 {
        lemma_be_value_bound(bytes.drop_last());
        lemma_pow1(256);
        lemma_pow_adds(256, (bytes.len() - 1) as nat, 1);
    }
}

/// Reading back the bytes of a number that fits in them gives the number.
pub proof fn lemma_be_round_trip(x: nat, len: nat)
    requires
        x < pow(256, len),
    ensures
        be_value(be_bytes(x, len)) == x,
    decreases len,
{
    if len == 0 {
        lemma_pow0(256);
    } else {
        lemma_pow1(256);
        lemma_pow_adds(256, (len - 1) as nat, 1);
        lemma_be_round_trip(x / 256, (len - 1) as nat);
        let bytes = be_bytes(x, len);
        assert(bytes.drop_last() =~= be_bytes(x / 256, (len - 1) as nat));
    }
}

/// Bytes in front count for as many powers of 256 as bytes follow them.
pub proof fn lemma_be_value_concat(front: Seq<u8>, back: Seq<u8>)
    ensures
        be_value(front + back) == be_value(front) * pow(256, back.len()) + be_value(back),
    decreases back.len(),
{
    if back.len() == 0 {
        lemma_pow0(256);
        assert(front + back =~= front);
    } else {
        let rest = back.drop_last();
        lemma_be_value_concat(front, rest);
        assert((front + back).drop_last() =~= front + rest);
        lemma_pow1(256);
        lemma_pow_adds(256, rest.len(), 1);
        let high = be_value(front) as int;
        let weight = pow(256, rest.len());
        assert(high * (weight * 256) == high * weight * 256) by (nonlinear_arith);
    }
}

/// `256^16` is the number of 128-bit integers.
pub proof fn lemma_pow_256_16()
    ensures
        pow(256, 16) == u128::MAX + 1,
{
    lemma_pow1(256);
    lemma_pow_adds(256, 1, 1);
    assert(pow(256, 2) == 0x1_0000) by (nonlinear_arith)
        requires
            pow(256, 2) == pow(256, 1) * pow(256, 1),
            pow(256, 1) == 256,
    ;
    lemma_pow_adds(256, 2, 2);
    assert(pow(256, 4) == 0x1_0000_0000) by (nonlinear_arith)
        requires
            pow(256, 4) == pow(256, 2) * pow(256, 2),
            pow(256, 2) == 0x1_0000,
    ;
    lemma_pow_adds(256, 4, 4);
    assert(pow(256, 8) == 0x1_0000_0000_0000_0000) by (nonlinear_arith)
        requires
            pow(256, 8) == pow(256, 4) * pow(256, 4),
            pow(256, 4) == 0x1_0000_0000,
    ;
    lemma_pow_adds(256, 8, 8);
    assert(pow(256, 16) == u128::MAX + 1) by (nonlinear_arith)
        requires
            pow(256, 16) == pow(256, 8) * pow(256, 8),
            pow(256, 8) == 0x1_0000_0000_0000_0000,
    ;
}

/// Reading back the sixteen bytes of a 128-bit integer gives the integer.
pub proof fn lemma_u128_round_trip(x: u128)
    ensures
        be_value(be_bytes(x as nat, 16)) == x,
        be_bytes(x as nat, 16).len() == 16,
{
    lemma_pow_256_16();
    lemma_be_round_trip(x as nat, 16);
    lemma_be_bytes_len(x as nat, 16);
}

/// One more byte at the end moves the number up by one byte and adds the byte;
/// no byte spells zero.
pub proof fn law_each_byte_counts(bytes: Seq<u8>, byte: u8)
    ensures
        be_value(bytes.push(byte)) == be_value(bytes) * 256 + byte,
        be_value(Seq::<u8>::empty()) == 0,
{
    assert(bytes.push(byte).drop_last() =~= bytes);
}

/// A packed word has thirty-two bytes, and each half spells the integer that
/// was packed there.
pub proof fn law_packed_pair_holds_both(high: u128, low: u128)
    ensures
        packed_pair(high, low).len() == 32,
        be_value(packed_pair(high, low).subrange(0, 16)) == high,
        be_value(packed_pair(high, low).subrange(16, 32)) == low,
{
    lemma_u128_round_trip(high);
    lemma_u128_round_trip(low);
    let pair = packed_pair(high, low);
    assert(pair.subrange(0, 16) =~= be_bytes(high as nat, 16));
    assert(pair.subrange(16, 32) =~= be_bytes(low as nat, 16));
}

/// Read the sixteen bytes at `start` as a 128-bit integer.
pub fn read_u128(bytes: &[u8], start: usize) -> (r: u128)
    requires
        start + 16 <= bytes@.len(),
    ensures
        r == be_value(bytes@.subrange(start as int, start + 16)),
{
    let len: usize = bytes.len();
    let mut r: u128 = 0;
    let mut i: usize = 0;
    while i < 16
        invariant
            i <= 16,
            len == bytes@.len(),
            start + 16 <= len,
            r == be_value(bytes@.subrange(start as int, start + i)),
        decreases 16 - i,
    {
        proof {
            let read = bytes@.subrange(start as int, start + i);
            let next = bytes@.subrange(start as int, start + i + 1);
            assert(next.drop_last() =~= read);
            assert(next.last() == bytes@[start + i]);
            lemma_be_value_bound(next);
            lemma_pow_256_16();
            vstd::arithmetic::power::lemma_pow_increases(256, next.len(), 16);
        }
        r = r * 256 + bytes[start + i] as u128;
        i = i + 1;
    }
    r
}

/// Append the sixteen bytes of `x` to `out`.
pub fn push_u128(out: &mut Vec<u8>, x: u128)
    ensures
        final(out)@ == old(out)@ + be_bytes(x as nat, 16),
{
    let bytes = u128_bytes(x);
    let mut i: usize = 0;
    while i < 16
        invariant
            i <= 16,
            bytes@.len() == 16,
            out@ == old(out)@ + bytes@.subrange(0, i as int),
        decreases 16 - i,
    {
        out.push(bytes[i]);
        i = i + 1;
    }
    assert(bytes@.subrange(0, 16) =~= bytes@);
}

/// The sixteen bytes of `x`.
pub fn u128_bytes(x: u128) -> (r: [u8; 16])
    ensures
        r@ == be_bytes(x as nat, 16),
        be_value(r@) == x,
{
    proof {
        lemma_u128_round_trip(x);
    }
    let mut r: [u8; 16] = [0; 16];
    let mut rest: u128 = x;
    let mut i: usize = 16;
    proof {
        lemma_be_bytes_len(x as nat, 16);
    }
    assert(be_bytes(x as nat, 16) =~= be_bytes(rest as nat, i as nat) + r@.subrange(16, 16));
    while i > 0
        invariant
            i <= 16,
            be_bytes(x as nat, 16) == be_bytes(rest as nat, i as nat) + r@.subrange(i as int, 16),
        decreases i,
    {
        let ghost before = r@.subrange(i as int, 16);
        let ghost rest_before = rest;
        r[i - 1] = (rest % 256) as u8;
        rest = rest / 256;
        i = i - 1;
        proof {
            let digit = (rest_before % 256) as u8;
            assert(be_bytes(rest_before as nat, (i + 1) as nat) == be_bytes(rest as nat, i as nat).push(
                digit,
            ));
            assert(r@.subrange(i as int, 16) =~= seq![digit] + before);
            assert(be_bytes(rest as nat, i as nat).push(digit) + before =~= be_bytes(
                rest as nat,
                i as nat,
            ) + (seq![digit] + before));
        }
    }
    assert(be_bytes(rest as nat, 0) + r@.subrange(0, 16) =~= r@);
    r
}

/// Pack two 128-bit integers into one word, `high` in the first sixteen bytes.
pub fn pack_pair(high: u128, low: u128) -> (r: B256)
    ensures
        r@ == packed_pair(high, low),
        be_value(r@.subrange(0, 16)) == high,
        be_value(r@.subrange(16, 32)) == low,
{
    proof {
        law_packed_pair_holds_both(high, low);
    }
    let first = u128_bytes(high);
    let second = u128_bytes(low);
    let mut r: B256 = [0; 32];
    let mut i: usize = 0;
    while i < 16
        invariant
            i <= 16,
            forall|j: int| 0 <= j < i ==> r@[j] == first@[j],
            forall|j: int| 0 <= j < i ==> r@[16 + j] == #[trigger] second@[j],
        decreases 16 - i,
    {
        r[i] = first[i];
        r[i + 16] = second[i];
        i = i + 1;
    }
    assert(r@ =~= first@ + second@) by {
        assert forall|k: int| 0 <= k < 32 implies r@[k] == (first@ + second@)[k] by {
            if k >= 16 {
                assert(r@[16 + (k - 16)] == second@[k - 16]);
            }
        }
    }
    r
}

} // verus!
