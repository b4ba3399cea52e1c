//! SHA-512: 64-bit words, 128-byte blocks, 80 rounds.
//!
//! A message is padded to whole blocks, each block is expanded into a
//! schedule of 80 words, and the schedule is folded into a chaining value
//! of eight words, which starts at `SHA_512_INIT` and ends as the digest.
use crate::big_endian::{
    be_bytes, be_value, lemma_be_bytes_len, lemma_be_value_8, lemma_be_value_of_be_bytes, lemma_pow256,
    read_u64,
};
use crate::buffer::{buffer_bytes, put, put_u128, put_u8, to_vec, with_capacity};
use crate::util::{bit64, spec_rotl64, spec_rotr64, spec_shr64};
use vstd::arithmetic::div_mod::lemma_small_mod;
use vstd::prelude::*;
use vstd::slice::slice_subrange;

verus! {

/// How many zero bytes stand between the marker byte `0x80` and the length
/// field of a padded message of `len` bytes: the least number that brings
/// the whole to a multiple of 128 bytes.
pub open spec fn zero_pad_len(len: nat) -> nat {
    ((128 - (len + 17) % 128) % 128) as nat
}

/// The length in bytes of the padding of a message of `len` bytes.
pub open spec fn padded_len(len: nat) -> nat {
    len + 1 + zero_pad_len(len) + 16
}

/// The length field of the padding: the message's length in bits, reduced
/// to the 128 bits of the field.
pub open spec fn length_field(len: nat) -> nat {
    (8 * len) % 0x1_0000_0000_0000_0000_0000_0000_0000_0000nat
}

/// The padded message: the message, the byte `0x80`, `zero_pad_len` zero
/// bytes, and the length field in sixteen bytes, most significant first.
pub open spec fn spec_pad(msg: Seq<u8>) -> Seq<u8> {
    msg + seq![0x80u8] + Seq::new(zero_pad_len(msg.len()), |i: int| 0u8) + be_bytes(
        length_field(msg.len()),
        16,
    )
}

/// Whether a message of `len` bytes can be padded: whether its padding is
/// one that a buffer can hold.
pub fn can_pad(len: usize) -> (ok: bool)
    ensures
        ok == (padded_len(len as nat) <= isize::MAX),
{
    let limit: usize = usize::MAX / 2;
    if len > limit - 17 {
        false
    } else {
        let zeros: usize = (128 - (len + 17) % 128) % 128;
        zeros <= limit - 17 - len
    }
}

/// Pads `msg` to a whole number of 128-byte blocks.
///
/// The padded message must be one that a buffer can hold: at most
/// `isize::MAX` bytes.
pub fn pad_message(msg: &[u8]) -> (padded: Vec<u8>)
    requires
        padded_len(msg@.len()) <= isize::MAX,
    ensures
        padded@ == spec_pad(msg@),
        padded@.len() == padded_len(msg@.len()),
        (padded@.len() * 8) % 1024 == 0,
        padded@.subrange(0, msg@.len() as int) == msg@,
        padded@[msg@.len() as int] == 0x80,
        padded@.subrange(padded@.len() - 16, padded@.len() as int) == be_bytes(
            length_field(msg@.len()),
            16,
        ),
{
    let len = msg.len();
    let zeros: usize = (128 - (len + 17) % 128) % 128;
    let bit_len: u128 = (len as u128) * 8;
    let mut buffer = with_capacity(len + 1 + zeros + 16);
    put(&mut buffer, msg);
    put_u8(&mut buffer, 0x80);
    let mut i: usize = 0;
    while i < zeros
        invariant
            i <= zeros,
            len == msg@.len(),
            len + 1 + zeros + 16 <= isize::MAX,
            buffer_bytes(buffer) == msg@ + seq![0x80u8] + Seq::new(i as nat, |j: int| 0u8),
        decreases zeros - i,
    {
        put_u8(&mut buffer, 0x00);
        i += 1;
    }
    put_u128(&mut buffer, bit_len);
    proof {
        lemma_pad_whole_blocks(msg@);
        lemma_pad_layout(msg@);
    }
    to_vec(&buffer)
}

/// `x` rotated left by `n` places.
pub fn rotl(n: u64, x: u64) -> (r: u64)
    requires
        0 < n < 64,
    ensures
        r == spec_rotl64(n, x),
{
    (x << n) | (x >> (64 - n))
}

/// `x` rotated right by `n` places.
pub fn rotr(n: u64, x: u64) -> (r: u64)
    requires
        0 < n < 64,
    ensures
        r == spec_rotr64(n, x),
{
    (x >> n) | (x << (64 - n))
}

/// `x` shifted right by `n` places, filling with zeros.
pub fn shr(n: u64, x: u64) -> (r: u64)
    requires
        n < 64,
    ensures
        r == spec_shr64(n, x),
{
    x >> n
}

/// The choice function: each bit of `x` picks the bit of `y` where it is
/// set and the bit of `z` where it is clear.
pub open spec fn spec_ch(x: u64, y: u64, z: u64) -> u64 {
    (x & y) ^ (!x & z)
}

/// The majority function: each bit is the value that at least two of `x`,
/// `y` and `z` have at that place.
pub open spec fn spec_maj(x: u64, y: u64, z: u64) -> u64 {
    (x & y) ^ (x & z) ^ (y & z)
}

/// The small sigma-1 of the message schedule.
pub open spec fn spec_s_sigma1_512(word: u64) -> u64 {
    spec_rotr64(19, word) ^ spec_rotr64(61, word) ^ spec_shr64(6, word)
}

/// The small sigma-0 of the message schedule.
pub open spec fn spec_s_sigma0_512(word: u64) -> u64 {
    spec_rotr64(1, word) ^ spec_rotr64(8, word) ^ spec_shr64(7, word)
}

/// The big sigma-1 of the round function.
pub open spec fn spec_b_sigma1_512(word: u64) -> u64 {
    spec_rotr64(14, word) ^ spec_rotr64(18, word) ^ spec_rotr64(41, word)
}

/// The big sigma-0 of the round function.
pub open spec fn spec_b_sigma0_512(word: u64) -> u64 {
    spec_rotr64(28, word) ^ spec_rotr64(34, word) ^ spec_rotr64(39, word)
}

/// The choice function `Ch`.
pub fn ch(x: u64, y: u64, z: u64) -> (r: u64)
    ensures
        r == spec_ch(x, y, z),
{
    (x & y) ^ (!x & z)
}

/// The majority function `Maj`.
pub fn maj(x: u64, y: u64, z: u64) -> (r: u64)
    ensures
        r == spec_maj(x, y, z),
{
    (x & y) ^ (x & z) ^ (y & z)
}

/// The small sigma-1: rotations by 19 and 61 and a shift by 6, combined by
/// exclusive or.
pub fn s_sigma1_512(word: u64) -> (r: u64)
    ensures
        r == spec_s_sigma1_512(word),
{
    rotr(19, word) ^ rotr(61, word) ^ shr(6, word)
}

/// The small sigma-0: rotations by 1 and 8 and a shift by 7, combined by
/// exclusive or.
pub fn s_sigma0_512(word: u64) -> (r: u64)
    ensures
        r == spec_s_sigma0_512(word),
{
    rotr(1, word) ^ rotr(8, word) ^ shr(7, word)
}

/// The big sigma-1: rotations by 14, 18 and 41, combined by exclusive or.
pub fn b_sigma1_512(word: u64) -> (r: u64)
    ensures
        r == spec_b_sigma1_512(word),
{
    rotr(14, word) ^ rotr(18, word) ^ rotr(41, word)
}

/// The big sigma-0: rotations by 28, 34 and 39, combined by exclusive or.
pub fn b_sigma0_512(word: u64) -> (r: u64)
    ensures
        r == spec_b_sigma0_512(word),
{
    rotr(28, word) ^ rotr(34, word) ^ rotr(39, word)
}

/// Bit by bit, `Ch` chooses: where `x` has a one the result has the bit of
/// `y`, and where `x` has a zero it has the bit of `z`.
pub proof fn lemma_ch_bits(x: u64, y: u64, z: u64, i: u64)
    requires
        i < 64,
    ensures
        bit64(spec_ch(x, y, z), i) == (if bit64(x, i) {
            bit64(y, i)
        } else {
            bit64(z, i)
        }),
{
    assert(bit64(spec_ch(x, y, z), i) == (if bit64(x, i) {
        bit64(y, i)
    } else {
        bit64(z, i)
    })) by (bit_vector)
        requires
            i < 64,
    ;
}

/// Bit by bit, `Maj` votes: the result has a one where at least two of `x`,
/// `y` and `z` have one.
pub proof fn lemma_maj_bits(x: u64, y: u64, z: u64, i: u64)
    requires
        i < 64,
    ensures
        bit64(spec_maj(x, y, z), i) == ((bit64(x, i) && bit64(y, i)) || (bit64(x, i) && bit64(
            z,
            i,
        )) || (bit64(y, i) && bit64(z, i))),
{
    assert(bit64(spec_maj(x, y, z), i) == ((bit64(x, i) && bit64(y, i)) || (bit64(x, i)
        && bit64(z, i)) || (bit64(y, i) && bit64(z, i)))) by (bit_vector)
        requires
            i < 64,
    ;
}

/// Word `j` of a block: its bytes `8j .. 8j + 8`, most significant first.
pub open spec fn block_word(block: Seq<u8>, j: int) -> u64 {
    be_value(block.subrange(8 * j, 8 * j + 8)) as u64
}

/// Word `t` of the message schedule of a block: the block's own words for
/// `t < 16`, and from there on a mix of four earlier schedule words.
pub open spec fn schedule_word(block: Seq<u8>, t: int) -> u64
    decreases t,
{
    if t < 16 {
        block_word(block, t)
    } else {
        spec_s_sigma1_512(schedule_word(block, t - 2)).wrapping_add(
            schedule_word(block, t - 7),
        ).wrapping_add(spec_s_sigma0_512(schedule_word(block, t - 15))).wrapping_add(
            schedule_word(block, t - 16),
        )
    }
}

/// The message schedule of a block: 80 words.
pub open spec fn spec_expand(block: Seq<u8>) -> Seq<u64> {
    Seq::new(80, |t: int| schedule_word(block, t))
}

/// Expands a 128-byte block into its message schedule.
pub fn expand(block: &[u8]) -> (schedule: [u64; 80])
    requires
        block@.len() == 128,
    ensures
        schedule@ == spec_expand(block@),
{
    let mut msg_schedule: [u64; 80] = [0u64; 80];
    let mut t: usize = 0;
    while t < 16
        invariant
            t <= 16,
            block@.len() == 128,
            forall|j: int| 0 <= j < t ==> msg_schedule@[j] == schedule_word(block@, j),
        decreases 16 - t,
    {
        let word = slice_subrange(block, 8 * t, 8 * t + 8);
        assert(word@.subrange(0, 8) =~= word@);
        msg_schedule[t] = read_u64(word);
        t += 1;
    }
    while t < 80
        invariant
            16 <= t <= 80,
            forall|j: int| 0 <= j < t ==> msg_schedule@[j] == schedule_word(block@, j),
        decreases 80 - t,
    {
        msg_schedule[t] = s_sigma1_512(msg_schedule[t - 2]).wrapping_add(
            msg_schedule[t - 7],
        ).wrapping_add(s_sigma0_512(msg_schedule[t - 15])).wrapping_add(msg_schedule[t - 16]);
        t += 1;
    }
    assert(msg_schedule@ =~= spec_expand(block@));
    msg_schedule
}

/// One round: the eight working variables `a` to `h`, held as `v[0]` to
/// `v[7]`, after mixing in the round constant `k` and the schedule word `w`.
pub open spec fn spec_round(v: Seq<u64>, k: u64, w: u64) -> Seq<u64> {
    let t1 = v[7].wrapping_add(spec_b_sigma1_512(v[4])).wrapping_add(
        spec_ch(v[4], v[5], v[6]),
    ).wrapping_add(k).wrapping_add(w);
    let t2 = spec_b_sigma0_512(v[0]).wrapping_add(spec_maj(v[0], v[1], v[2]));
    seq![t1.wrapping_add(t2), v[0], v[1], v[2], v[3].wrapping_add(t1), v[4], v[5], v[6]]
}

/// The working variables after the first `n` rounds, starting from `v`.
pub open spec fn spec_rounds(v: Seq<u64>, schedule: Seq<u64>, n: nat) -> Seq<u64>
    decreases n,
{
    if n == 0 {
        v
    } else {
        spec_round(spec_rounds(v, schedule, (n - 1) as nat), SHA_512@[n - 1], schedule[n - 1])
    }
}

/// The chaining value after a block: the working variables start as the
/// chaining value before the block, go through the 80 rounds, and are added
/// word by word to the value they started from.
pub open spec fn spec_compress(chaining: Seq<u64>, schedule: Seq<u64>) -> Seq<u64> {
    let v = spec_rounds(chaining, schedule, 80);
    Seq::new(8, |i: int| chaining[i].wrapping_add(v[i]))
}

/// Folds the schedule of one block into the chaining value.
pub fn compress(chaining: &[u64; 8], schedule: &[u64; 80]) -> (next: [u64; 8])
    ensures
        next@ == spec_compress(chaining@, schedule@),
{
    let mut a = chaining[0];
    let mut b = chaining[1];
    let mut c = chaining[2];
    let mut d = chaining[3];
    let mut e = chaining[4];
    let mut f = chaining[5];
    let mut g = chaining[6];
    let mut h = chaining[7];
    assert(seq![a, b, c, d, e, f, g, h] =~= chaining@);
    let mut t: usize = 0;
    while t < 80
        invariant
            t <= 80,
            seq![a, b, c, d, e, f, g, h] == spec_rounds(chaining@, schedule@, t as nat),
        decreases 80 - t,
    {
        let t1 = h.wrapping_add(b_sigma1_512(e)).wrapping_add(ch(e, f, g)).wrapping_add(
            SHA_512[t],
        ).wrapping_add(schedule[t]);
        let t2 = b_sigma0_512(a).wrapping_add(maj(a, b, c));
        h = g;
        g = f;
        f = e;
        e = d.wrapping_add(t1);
        d = c;
        c = b;
        b = a;
        a = t1.wrapping_add(t2);
        t += 1;
    }
    let next = [
        chaining[0].wrapping_add(a),
        chaining[1].wrapping_add(b),
        chaining[2].wrapping_add(c),
        chaining[3].wrapping_add(d),
        chaining[4].wrapping_add(e),
        chaining[5].wrapping_add(f),
        chaining[6].wrapping_add(g),
        chaining[7].wrapping_add(h),
    ];
    assert(next@ =~= spec_compress(chaining@, schedule@));
    next
}

/// Block `i` of a padded message: its bytes `128i .. 128i + 128`.
pub open spec fn spec_block(padded: Seq<u8>, i: int) -> Seq<u8> {
    padded.subrange(128 * i, 128 * i + 128)
}

/// The chaining value after the first `n` blocks of `padded`.
pub open spec fn spec_chain(padded: Seq<u8>, n: nat) -> Seq<u64>
    decreases n,
{
    if n == 0 {
        SHA_512_INIT@
    } else {
        spec_compress(spec_chain(padded, (n - 1) as nat), spec_expand(spec_block(padded, n - 1)))
    }
}

/// The SHA-512 digest of `msg`: the chaining value after the last block of
/// the padded message.
pub open spec fn spec_digest(msg: Seq<u8>) -> Seq<u64> {
    spec_chain(spec_pad(msg), spec_pad(msg).len() / 128)
}

/// What `hash` returns: nothing for the empty message, the digest for
/// every other.
pub open spec fn spec_hash(msg: Seq<u8>) -> Option<Seq<u64>> {
    if msg.len() == 0 {
        None
    } else {
        Some(spec_digest(msg))
    }
}

/// The SHA-512 digest of `msg`, the empty message included.
pub fn digest(msg: &[u8]) -> (hashes: [u64; 8])
    requires
        padded_len(msg@.len()) <= isize::MAX,
    ensures
        hashes@ == spec_digest(msg@),
{
    let padded_message = pad_message(msg);
    let blocks = padded_message.len() / 128;
    let mut hashes = SHA_512_INIT;
    let mut i: usize = 0;
    while i < blocks
        invariant
            i <= blocks,
            blocks * 128 == padded_message@.len() <= usize::MAX,
            hashes@ == spec_chain(padded_message@, i as nat),
        decreases blocks - i,
    {
        let block = slice_subrange(padded_message.as_slice(), 128 * i, 128 * i + 128);
        let msg_schedule = expand(block);
        hashes = compress(&hashes, &msg_schedule);
        i += 1;
    }
    hashes
}

/// The SHA-512 digest of a message that is not empty; `None` for the empty
/// message, whose digest `digest` computes.
pub fn hash(msg: &[u8]) -> (r: Option<[u64; 8]>)
    requires
        padded_len(msg@.len()) <= isize::MAX,
    ensures
        r is None <==> msg@.len() == 0,
        match r {
            Some(hashes) => spec_hash(msg@) == Some(hashes@),
            None => spec_hash(msg@) is None,
        },
{
    if msg.is_empty() {
        None
    } else {
        Some(digest(msg))
    }
}

/// The zero padding is the least that completes a block: fewer zero bytes
/// would leave the padded message short of a multiple of 128 bytes.
pub proof fn lemma_zero_pad_len_least(len: nat, fewer: nat)
    ensures
        zero_pad_len(len) < 128,
        padded_len(len) % 128 == 0,
        (padded_len(len) * 8) % 1024 == 0,
        fewer < zero_pad_len(len) ==> (len + 1 + fewer + 16) % 128 != 0,
{
}

/// Counted in bits, the padding is a one, the least number of zeros, and
/// the length field: the marker byte gives the one and seven zeros, each
/// zero byte eight more, and with fewer zeros the whole would not be a
/// multiple of 1024 bits.
pub proof fn lemma_zero_bits_least(len: nat, fewer: nat)
    ensures
        (8 * len + 1 + (7 + 8 * zero_pad_len(len)) + 128) % 1024 == 0,
        8 * padded_len(len) == 8 * len + 1 + (7 + 8 * zero_pad_len(len)) + 128,
        fewer < 7 + 8 * zero_pad_len(len) ==> (8 * len + 1 + fewer + 128) % 1024 != 0,
{
    lemma_zero_pad_len_least(len, fewer / 8);
    if fewer < 7 + 8 * zero_pad_len(len) {
        if fewer % 8 == 7 {
            // a whole number of bytes, and fewer zero bytes than needed
            assert(8 * len + 1 + fewer + 128 == 8 * (len + 1 + fewer / 8 + 16));
            assert((8 * (len + 1 + fewer / 8 + 16)) % 1024 != 0);
        } else {
            // not a whole number of bytes
            assert((8 * len + 1 + fewer + 128) % 8 != 0);
        }
    }
}

/// A padded message is a whole number of 1024-bit blocks, and at least one.
pub proof fn lemma_pad_whole_blocks(msg: Seq<u8>)
    ensures
        spec_pad(msg).len() == padded_len(msg.len()),
        (spec_pad(msg).len() * 8) % 1024 == 0,
        spec_pad(msg).len() % 128 == 0,
        spec_pad(msg).len() >= 128,
{
    lemma_be_bytes_len(length_field(msg.len()), 16);
    lemma_zero_pad_len_least(msg.len(), 0);
}

/// A padded message begins with the message, goes on with the marker byte
/// and with zeros only, and ends with the sixteen bytes that spell the
/// message's length in bits, reduced modulo 2^128.
pub proof fn lemma_pad_layout(msg: Seq<u8>)
    ensures
        spec_pad(msg).subrange(0, msg.len() as int) == msg,
        spec_pad(msg)[msg.len() as int] == 0x80,
        forall|i: int|
            msg.len() < i < spec_pad(msg).len() - 16 ==> #[trigger] spec_pad(msg)[i] == 0,
        spec_pad(msg).subrange(spec_pad(msg).len() - 16, spec_pad(msg).len() as int) == be_bytes(
            length_field(msg.len()),
            16,
        ),
        be_value(spec_pad(msg).subrange(spec_pad(msg).len() - 16, spec_pad(msg).len() as int))
            == (8 * msg.len()) % 0x1_0000_0000_0000_0000_0000_0000_0000_0000nat,
{
    let field = be_bytes(length_field(msg.len()), 16);
    let padded = spec_pad(msg);
    lemma_be_bytes_len(length_field(msg.len()), 16);
    assert(padded.subrange(0, msg.len() as int) =~= msg);
    assert(padded.subrange(padded.len() - 16, padded.len() as int) =~= field);
    assert(be_value(field) == length_field(msg.len())) by {
        lemma_be_value_of_be_bytes(length_field(msg.len()), 16);
        lemma_pow256();
        lemma_small_mod(length_field(msg.len()), 0x1_0000_0000_0000_0000_0000_0000_0000_0000nat);
    }
}

/// Padding loses nothing: messages with the same padding are the same
/// message.
pub proof fn lemma_pad_injective(first: Seq<u8>, second: Seq<u8>)
    requires
        spec_pad(first) == spec_pad(second),
    ensures
        first == second,
{
    let padded = spec_pad(first);
    lemma_pad_whole_blocks(first);
    lemma_pad_whole_blocks(second);
    lemma_pad_layout(first);
    lemma_pad_layout(second);
    // the marker of the longer message would stand among the zeros of the shorter
    if first.len() < second.len() {
        assert(padded[second.len() as int] == 0);
    } else if second.len() < first.len() {
        assert(padded[first.len() as int] == 0);
    }
    assert(first =~= padded.subrange(0, first.len() as int));
}

/// Every block of a padded message has 128 bytes.
pub proof fn lemma_block_len(padded: Seq<u8>, i: int)
    requires
        0 <= i < padded.len() / 128,
    ensures
        spec_block(padded, i).len() == 128,
{
}

/// A word of a block is the number that its eight bytes spell, which fits
/// the word: the first four bytes spell its high half, the last four its
/// low half.
pub proof fn lemma_block_word(block: Seq<u8>, j: int)
    requires
        block.len() == 128,
        0 <= j < 16,
    ensures
        block_word(block, j) as nat == be_value(block.subrange(8 * j, 8 * j + 8)),
        block_word(block, j) == be_value(block.subrange(8 * j, 8 * j + 4)) * 0x1_0000_0000
            + be_value(block.subrange(8 * j + 4, 8 * j + 8)),
{
    let word = block.subrange(8 * j, 8 * j + 8);
    lemma_be_value_8(word);
    assert(word.subrange(0, 4) =~= block.subrange(8 * j, 8 * j + 4));
    assert(word.subrange(4, 8) =~= block.subrange(8 * j + 4, 8 * j + 8));
}

/// The first sixteen words of a schedule are the words of the block; each
/// later word is made of the words 2, 7, 15 and 16 places before it.
pub proof fn lemma_schedule_entries(block: Seq<u8>, t: int)
    requires
        0 <= t < 80,
    ensures
        spec_expand(block).len() == 80,
        t < 16 ==> spec_expand(block)[t] == block_word(block, t),
        t >= 16 ==> spec_expand(block)[t] == spec_s_sigma1_512(
            spec_expand(block)[t - 2],
        ).wrapping_add(spec_expand(block)[t - 7]).wrapping_add(
            spec_s_sigma0_512(spec_expand(block)[t - 15]),
        ).wrapping_add(spec_expand(block)[t - 16]),
{
}

/// A chaining value has eight words, whatever the blocks before it.
pub proof fn lemma_chain_len(padded: Seq<u8>, n: nat)
    ensures
        spec_chain(padded, n).len() == 8,
{
    if n == 0 {
        assert(SHA_512_INIT@.len() == 8);
    }
}

/// The chaining value after `n` blocks depends on those blocks alone: what
/// follows them in the padded message does not change it.
pub proof fn lemma_chain_prefix(blocks: Seq<u8>, rest: Seq<u8>, n: nat)
    requires
        128 * n <= blocks.len(),
    ensures
        spec_chain(blocks + rest, n) == spec_chain(blocks, n),
    decreases n,
{
    if n > 0 {
        lemma_chain_prefix(blocks, rest, (n - 1) as nat);
        assert(spec_block(blocks + rest, n - 1) =~= spec_block(blocks, n - 1));
    }
}

/// A digest has eight words, whatever the length of the message.
pub proof fn lemma_digest_len(msg: Seq<u8>)
    ensures
        spec_digest(msg).len() == 8,
{
    lemma_chain_len(spec_pad(msg), spec_pad(msg).len() / 128);
}

/// The digest is a function of the message's bytes and of nothing else:
/// messages with the same bytes have the same digest, and `hash` returns
/// the same for both.
pub proof fn lemma_hash_deterministic(first: Seq<u8>, second: Seq<u8>)
    requires
        first.len() == second.len(),
        forall|i: int| 0 <= i < first.len() ==> first[i] == second[i],
    ensures
        spec_digest(first) == spec_digest(second),
        spec_hash(first) == spec_hash(second),
{
    assert(first =~= second);
}

/// Blocks are chained: the working variables of a block start as the
/// chaining value that the block before it left, unchanged, and the block
/// leaves the compression of that value with its own schedule. The first
/// block starts from the initial value.
pub proof fn lemma_chaining_feeds_next_block(msg: Seq<u8>, i: nat)
    requires
        i < spec_pad(msg).len() / 128,
    ensures
        spec_chain(spec_pad(msg), 0) == SHA_512_INIT@,
        spec_rounds(
            spec_chain(spec_pad(msg), i),
            spec_expand(spec_block(spec_pad(msg), i as int)),
            0,
        ) == spec_chain(spec_pad(msg), i),
        spec_chain(spec_pad(msg), i + 1) == spec_compress(
            spec_chain(spec_pad(msg), i),
            spec_expand(spec_block(spec_pad(msg), i as int)),
        ),
        i + 1 == spec_pad(msg).len() / 128 ==> spec_digest(msg) == spec_chain(
            spec_pad(msg),
            i + 1,
        ),
{
}

/// The initial chaining value.
pub const SHA_512_INIT: [u64; 8] = [
    0x6a09_e667_f3bc_c908,
    0xbb67_ae85_84ca_a73b,
    0x3c6e_f372_fe94_f82b,
    0xa54f_f53a_5f1d_36f1,
    0x510e_527f_ade6_82d1,
    0x9b05_688c_2b3e_6c1f,
    0x1f83_d9ab_fb41_bd6b,
    0x5be0_cd19_137e_2179,
];

/// The round constants.
pub const SHA_512: [u64; 80] = [
    0x428a_2f98_d728_ae22,
    0x7137_4491_23ef_65cd,
    0xb5c0_fbcf_ec4d_3b2f,
    0xe9b5_dba5_8189_dbbc,
    0x3956_c25b_f348_b538,
    0x59f1_11f1_b605_d019,
    0x923f_82a4_af19_4f9b,
    0xab1c_5ed5_da6d_8118,
    0xd807_aa98_a303_0242,
    0x1283_5b01_4570_6fbe,
    0x2431_85be_4ee4_b28c,
    0x550c_7dc3_d5ff_b4e2,
    0x72be_5d74_f27b_896f,
    0x80de_b1fe_3b16_96b1,
    0x9bdc_06a7_25c7_1235,
    0xc19b_f174_cf69_2694,
    0xe49b_69c1_9ef1_4ad2,
    0xefbe_4786_384f_25e3,
    0x0fc1_9dc6_8b8c_d5b5,
    0x240c_a1cc_77ac_9c65,
    0x2de9_2c6f_592b_0275,
    0x4a74_84aa_6ea6_e483,
    0x5cb0_a9dc_bd41_fbd4,
    0x76f9_88da_8311_53b5,
    0x983e_5152_ee66_dfab,
    0xa831_c66d_2db4_3210,
    0xb003_27c8_98fb_213f,
    0xbf59_7fc7_beef_0ee4,
    0xc6e0_0bf3_3da8_8fc2,
    0xd5a7_9147_930a_a725,
    0x06ca_6351_e003_826f,
    0x1429_2967_0a0e_6e70,
    0x27b7_0a85_46d2_2ffc,
    0x2e1b_2138_5c26_c926,
    0x4d2c_6dfc_5ac4_2aed,
    0x5338_0d13_9d95_b3df,
    0x650a_7354_8baf_63de,
    0x766a_0abb_3c77_b2a8,
    0x81c2_c92e_47ed_aee6,
    0x9272_2c85_1482_353b,
    0xa2bf_e8a1_4cf1_0364,
    0xa81a_664b_bc42_3001,
    0xc24b_8b70_d0f8_9791,
    0xc76c_51a3_0654_be30,
    0xd192_e819_d6ef_5218,
    0xd699_0624_5565_a910,
    0xf40e_3585_5771_202a,
    0x106a_a070_32bb_d1b8,
    0x19a4_c116_b8d2_d0c8,
    0x1e37_6c08_5141_ab53,
    0x2748_774c_df8e_eb99,
    0x34b0_bcb5_e19b_48a8,
    0x391c_0cb3_c5c9_5a63,
    0x4ed8_aa4a_e341_8acb,
    0x5b9c_ca4f_7763_e373,
    0x682e_6ff3_d6b2_b8a3,
    0x748f_82ee_5def_b2fc,
    0x78a5_636f_4317_2f60,
    0x84c8_7814_a1f0_ab72,
    0x8cc7_0208_1a64_39ec,
    0x90be_fffa_2363_1e28,
    0xa450_6ceb_de82_bde9,
    0xbef9_a3f7_b2c6_7915,
    0xc671_78f2_e372_532b,
    0xca27_3ece_ea26_619c,
    0xd186_b8c7_21c0_c207,
    0xeada_7dd6_cde0_eb1e,
    0xf57d_4f7f_ee6e_d178,
    0x06f0_67aa_7217_6fba,
    0x0a63_7dc5_a2c8_98a6,
    0x113f_9804_bef9_0dae,
    0x1b71_0b35_131c_471b,
    0x28db_77f5_2304_7d84,
    0x32ca_ab7b_40c7_2493,
    0x3c9e_be0a_15c9_bebc,
    0x431d_67c4_9c10_0d4c,
    0x4cc5_d4be_cb3e_42b6,
    0x597f_299c_fc65_7e2a,
    0x5fcb_6fab_3ad6_faec,
    0x6c44_198c_4a47_5817,
];

} // verus!
