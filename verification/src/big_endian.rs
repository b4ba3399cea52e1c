//! Big-endian byte strings and the numbers they spell.
//!
//! Every multi-byte quantity of the digests (block words, the length field
//! of the padding) is written most significant byte first. The two spec
//! functions here are the model of that encoding; the executable readers go
//! through the `byteorder` crate.
use byteorder::{BigEndian, ByteOrder};
use vstd::arithmetic::div_mod::{
    lemma_breakdown, lemma_fundamental_div_mod, lemma_fundamental_div_mod_converse,
};
use vstd::arithmetic::power::{lemma_pow0, lemma_pow_positive, pow};
use vstd::prelude::*;

verus! {

/// The number that the bytes of `b` spell in base 256, most significant byte
/// first.
pub open spec fn be_value(b: Seq<u8>) -> nat
    decreases b.len(),
{
    if b.len() == 0 {
        0
    } else {
        be_value(b.drop_last()) * 256 + b.last() as nat
    }
}

/// The `width` low-order base-256 digits of `x`, most significant first.
pub open spec fn be_bytes(x: nat, width: nat) -> Seq<u8>
    decreases width,
{
    if width == 0 {
        Seq::empty()
    } else {
        be_bytes(x / 256, (width - 1) as nat).push((x % 256) as u8)
    }
}

/// An encoding in `width` bytes has `width` bytes.
pub proof fn lemma_be_bytes_len(x: nat, width: nat)
    ensures
        be_bytes(x, width).len() == width,
    decreases width,
{
    if width > 0 {
        lemma_be_bytes_len(x / 256, (width - 1) as nat);
    }
}

/// A string of `n` bytes spells a number below `256^n`.
pub proof fn lemma_be_value_bound(b: Seq<u8>)
    ensures
        be_value(b) < pow(256, b.len()),
    decreases b.len(),
{
    if b.len() == 0 {
        lemma_pow0(256);
    } else {
        lemma_be_value_bound(b.drop_last());
        assert(pow(256, b.len()) == 256 * pow(256, b.drop_last().len())) by {
            reveal_with_fuel(pow, 2);
        }
    }
}

/// Four bytes spell `b[0]·2^24 + b[1]·2^16 + b[2]·2^8 + b[3]`, which fits a
/// 32-bit word.
pub proof fn lemma_be_value_4(b: Seq<u8>)
    requires
        b.len() == 4,
    ensures
        be_value(b) == b[0] as nat * 0x100_0000 + b[1] as nat * 0x1_0000 + b[2] as nat * 0x100
            + b[3] as nat,
        be_value(b) <= u32::MAX,
{
    let b3 = b.drop_last();
    let b2 = b3.drop_last();
    let b1 = b2.drop_last();
    assert(be_value(b1.drop_last()) == 0);
    assert(be_value(b1) == b[0] as nat);
    assert(be_value(b2) == be_value(b1) * 256 + b[1] as nat);
    assert(be_value(b3) == be_value(b2) * 256 + b[2] as nat);
    assert(be_value(b) == be_value(b3) * 256 + b[3] as nat);
}

/// Eight bytes spell a number that fits a 64-bit word: the first four spell
/// its high half, the last four its low half.
pub proof fn lemma_be_value_8(b: Seq<u8>)
    requires
        b.len() == 8,
    ensures
        be_value(b) == be_value(b.subrange(0, 4)) * 0x1_0000_0000 + be_value(b.subrange(4, 8)),
        be_value(b) <= u64::MAX,
{
    lemma_be_value_concat(b.subrange(0, 4), b.subrange(4, 8));
    assert(b.subrange(0, 4) + b.subrange(4, 8) =~= b);
    lemma_be_value_4(b.subrange(0, 4));
    lemma_be_value_4(b.subrange(4, 8));
    lemma_pow256();
}

/// The powers of 256 that bound a word of 4, 8 and 16 bytes.
pub proof fn lemma_pow256()
    ensures
        pow(256, 4) == 0x1_0000_0000,
        pow(256, 8) == 0x1_0000_0000_0000_0000,
        pow(256, 16) == 0x1_0000_0000_0000_0000_0000_0000_0000_0000,
{
    reveal(pow);
    assert(pow(256, 0) == 1);
    assert(pow(256, 1) == 256);
    assert(pow(256, 2) == 0x1_0000);
    assert(pow(256, 3) == 0x100_0000);
    assert(pow(256, 4) == 0x1_0000_0000);
    assert(pow(256, 5) == 0x100_0000_0000);
    assert(pow(256, 6) == 0x1_0000_0000_0000);
    assert(pow(256, 7) == 0x100_0000_0000_0000);
    assert(pow(256, 8) == 0x1_0000_0000_0000_0000);
    assert(pow(256, 9) == 0x100_0000_0000_0000_0000);
    assert(pow(256, 10) == 0x1_0000_0000_0000_0000_0000);
    assert(pow(256, 11) == 0x100_0000_0000_0000_0000_0000);
    assert(pow(256, 12) == 0x1_0000_0000_0000_0000_0000_0000);
    assert(pow(256, 13) == 0x100_0000_0000_0000_0000_0000_0000);
    assert(pow(256, 14) == 0x1_0000_0000_0000_0000_0000_0000_0000);
    assert(pow(256, 15) == 0x100_0000_0000_0000_0000_0000_0000_0000);
}

/// Spelling is positional: the bytes of `hi` weigh `256^lo.len()` times what
/// they weigh alone.
pub proof fn lemma_be_value_concat(hi: Seq<u8>, lo: Seq<u8>)
    ensures
        be_value(hi + lo) == be_value(hi) * pow(256, lo.len()) + be_value(lo),
    decreases lo.len(),
{
    if lo.len() == 0 {
        assert(hi + lo =~= hi);
        lemma_pow0(256);
    } else {
        let lo1 = lo.drop_last();
        assert((hi + lo).drop_last() =~= hi + lo1);
        lemma_be_value_concat(hi, lo1);
        let p = pow(256, lo1.len());
        assert(pow(256, lo.len()) == 256 * p) by {
            reveal_with_fuel(pow, 2);
        }
        assert((be_value(hi) * p + be_value(lo1)) * 256 == be_value(hi) * (256 * p) + be_value(lo1)
            * 256) by (nonlinear_arith);
    }
}

/// Reading back what `be_bytes` wrote gives the number, reduced to the width
/// written.
pub proof fn lemma_be_value_of_be_bytes(x: nat, width: nat)
    ensures
        be_value(be_bytes(x, width)) == x % (pow(256, width) as nat),
    decreases width,
{
    if width == 0 {
        lemma_pow0(256);
    } else {
        let w1 = (width - 1) as nat;
        let rest = be_bytes(x / 256, w1);
        lemma_be_value_of_be_bytes(x / 256, w1);
        assert(be_bytes(x, width).drop_last() =~= rest);
        let p = pow(256, w1);
        lemma_pow_positive(256, w1);
        assert(pow(256, width) == 256 * p) by {
            reveal_with_fuel(pow, 2);
        }
        lemma_breakdown(x as int, 256, p);
    }
}

/// Writing the number that `b` spells, in as many bytes as `b` has, gives
/// `b` again.
pub proof fn lemma_be_bytes_of_be_value(b: Seq<u8>)
    ensures
        be_bytes(be_value(b), b.len()) == b,
    decreases b.len(),
{
    if b.len() > 0 {
        let b1 = b.drop_last();
        lemma_be_bytes_of_be_value(b1);
        let v = be_value(b);
        lemma_fundamental_div_mod(v as int, 256);
        assert(v / 256 == be_value(b1) && v % 256 == b.last() as nat) by {
            lemma_fundamental_div_mod_converse(v as int, 256, be_value(b1) as int, b.last() as int);
        }
        assert(be_bytes(v, b.len()) =~= b);
    } else {
        assert(be_bytes(be_value(b), b.len()) =~= b);
    }
}

/// Reads the first four bytes of `buf` as a big-endian 32-bit word.
///
/// Trusted: the body is `byteorder`'s `BigEndian::read_u32`, which decodes
/// `buf[..4]` with `u32::from_be_bytes` and panics on a shorter slice.
#[verifier::external_body]
pub(crate) fn read_u32(buf: &[u8]) -> (r: u32)
    requires
        buf@.len() >= 4,
    ensures
        r as nat == be_value(buf@.subrange(0, 4)),
{
    BigEndian::read_u32(buf)
}

/// Reads the first eight bytes of `buf` as a big-endian 64-bit word.
///
/// Trusted: the body is `byteorder`'s `BigEndian::read_u64`, which decodes
/// `buf[..8]` with `u64::from_be_bytes` and panics on a shorter slice.
#[verifier::external_body]
pub(crate) fn read_u64(buf: &[u8]) -> (r: u64)
    requires
        buf@.len() >= 8,
    ensures
        r as nat == be_value(buf@.subrange(0, 8)),
{
    BigEndian::read_u64(buf)
}

} // verus!
