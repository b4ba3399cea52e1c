//! SHA-256: 32-bit words, 64-byte blocks, 64 rounds.
//!
//! A message is padded to whole blocks, each block is expanded into a
//! schedule of 64 words, and the schedule is folded into a chaining value
//! of eight words, which starts at `SHA_256_INIT` and ends as the digest.
use crate::big_endian::{
    be_bytes, be_value, lemma_be_bytes_len, lemma_be_value_4, lemma_be_value_of_be_bytes, lemma_pow256,
    read_u32,
};
use crate::buffer::{buffer_bytes, put, put_u64, put_u8, to_vec, with_capacity};
use crate::util::{bit32, rotr32, shr32, spec_rotr32, spec_shr32};
use vstd::prelude::*;
use vstd::slice::slice_subrange;

verus! {

/// How many zero bytes stand between the marker byte `0x80` and the length
/// field of a padded message of `len` bytes: the least number that brings
/// the whole to a multiple of 64 bytes.
pub open spec fn zero_pad_len(len: nat) -> nat {
    ((64 - (len + 9) % 64) % 64) as nat
}

/// The length in bytes of the padding of a message of `len` bytes.
pub open spec fn padded_len(len: nat) -> nat {
    len + 1 + zero_pad_len(len) + 8
}

/// The length field of the padding: the message's length in bits, reduced
/// to the 64 bits of the field.
pub open spec fn length_field(len: nat) -> nat {
    (8 * len) % 0x1_0000_0000_0000_0000
}

/// The padded message: the message, the byte `0x80`, `zero_pad_len` zero
/// bytes, and the length field in eight bytes, most significant first.
pub open spec fn spec_pad(msg: Seq<u8>) -> Seq<u8> {
    msg + seq![0x80u8] + Seq::new(zero_pad_len(msg.len()), |i: int| 0u8) + be_bytes(
        length_field(msg.len()),
        8,
    )
}

/// Whether a message of `len` bytes can be padded: whether its padding is
/// one that a buffer can hold.
pub fn can_pad(len: usize) -> (ok: bool)
    ensures
        ok == (padded_len(len as nat) <= isize::MAX),
{
    let limit: usize = usize::MAX / 2;
    if len > limit - 9 {
        false
    } else {
        let zeros: usize = (64 - (len + 9) % 64) % 64;
        zeros <= limit - 9 - len
    }
}

/// Pads `msg` to a whole number of 64-byte blocks.
///
/// The padded message must be one that a buffer can hold: at most
/// `isize::MAX` bytes.
pub fn pad_message(msg: &[u8]) -> (padded: Vec<u8>)
    requires
        padded_len(msg@.len()) <= isize::MAX,
    ensures
        padded@ == spec_pad(msg@),
        padded@.len() == padded_len(msg@.len()),
        (padded@.len() * 8) % 512 == 0,
        padded@.subrange(0, msg@.len() as int) == msg@,
        padded@[msg@.len() as int] == 0x80,
        padded@.subrange(padded@.len() - 8, padded@.len() as int) == be_bytes(
            length_field(msg@.len()),
            8,
        ),
{
    let len = msg.len();
    let zeros: usize = (64 - (len + 9) % 64) % 64;
    let bit_len: u64 = (len as u64).wrapping_mul(8);
    let mut buffer = with_capacity(len + 1 + zeros + 8);
    put(&mut buffer, msg);
    put_u8(&mut buffer, 0x80);
    let mut i: usize = 0;
    while i < zeros
        invariant
            i <= zeros,
            len == msg@.len(),
            len + 1 + zeros + 8 <= isize::MAX,
            buffer_bytes(buffer) == msg@ + seq![0x80u8] + Seq::new(i as nat, |j: int| 0u8),
        decreases zeros - i,
    {
        put_u8(&mut buffer, 0x00);
        i += 1;
    }
    put_u64(&mut buffer, bit_len);
    proof {
        lemma_pad_whole_blocks(msg@);
        lemma_pad_layout(msg@);
    }
    to_vec(&buffer)
}

/// The choice function: each bit of `x` picks the bit of `y` where it is
/// set and the bit of `z` where it is clear.
pub open spec fn spec_ch(x: u32, y: u32, z: u32) -> u32 {
    (x & y) ^ (!x & z)
}

/// The majority function: each bit is the value that at least two of `x`,
/// `y` and `z` have at that place.
pub open spec fn spec_maj(x: u32, y: u32, z: u32) -> u32 {
    (x & y) ^ (x & z) ^ (y & z)
}

/// The small sigma-1 of the message schedule.
pub open spec fn spec_s_sigma1_256(word: u32) -> u32 {
    spec_rotr32(17, word) ^ spec_rotr32(19, word) ^ spec_shr32(10, word)
}

/// The small sigma-0 of the message schedule.
pub open spec fn spec_s_sigma0_256(word: u32) -> u32 {
    spec_rotr32(7, word) ^ spec_rotr32(18, word) ^ spec_shr32(3, word)
}

/// The big sigma-1 of the round function.
pub open spec fn spec_b_sigma1_256(word: u32) -> u32 {
    spec_rotr32(6, word) ^ spec_rotr32(11, word) ^ spec_rotr32(25, word)
}

/// The big sigma-0 of the round function.
pub open spec fn spec_b_sigma0_256(word: u32) -> u32 {
    spec_rotr32(2, word) ^ spec_rotr32(13, word) ^ spec_rotr32(22, word)
}

/// The choice function `Ch`.
pub fn ch(x: u32, y: u32, z: u32) -> (r: u32)
    ensures
        r == spec_ch(x, y, z),
{
    (x & y) ^ (!x & z)
}

/// The majority function `Maj`.
pub fn maj(x: u32, y: u32, z: u32) -> (r: u32)
    ensures
        r == spec_maj(x, y, z),
{
    (x & y) ^ (x & z) ^ (y & z)
}

/// The small sigma-1: rotations by 17 and 19 and a shift by 10, combined
/// by exclusive or.
pub fn s_sigma1_256(word: u32) -> (r: u32)
    ensures
        r == spec_s_sigma1_256(word),
{
    rotr32(17, word) ^ rotr32(19, word) ^ shr32(10, word)
}

/// The small sigma-0: rotations by 7 and 18 and a shift by 3, combined by
/// exclusive or.
pub fn s_sigma0_256(word: u32) -> (r: u32)
    ensures
        r == spec_s_sigma0_256(word),
{
    rotr32(7, word) ^ rotr32(18, word) ^ shr32(3, word)
}

/// The big sigma-1: rotations by 6, 11 and 25, combined by exclusive or.
pub fn b_sigma1_256(word: u32) -> (r: u32)
    ensures
        r == spec_b_sigma1_256(word),
{
    rotr32(6, word) ^ rotr32(11, word) ^ rotr32(25, word)
}

/// The big sigma-0: rotations by 2, 13 and 22, combined by exclusive or.
pub fn b_sigma0_256(word: u32) -> (r: u32)
    ensures
        r == spec_b_sigma0_256(word),
{
    rotr32(2, word) ^ rotr32(13, word) ^ rotr32(22, word)
}

/// Bit by bit, `Ch` chooses: where `x` has a one the result has the bit of
/// `y`, and where `x` has a zero it has the bit of `z`.
pub proof fn lemma_ch_bits(x: u32, y: u32, z: u32, i: u32)
    requires
        i < 32,
    ensures
        bit32(spec_ch(x, y, z), i) == (if bit32(x, i) {
            bit32(y, i)
        } else {
            bit32(z, i)
        }),
{
    assert(bit32(spec_ch(x, y, z), i) == (if bit32(x, i) {
        bit32(y, i)
    } else {
        bit32(z, i)
    })) by (bit_vector)
        requires
            i < 32,
    ;
}

/// Bit by bit, `Maj` votes: the result has a one where at least two of `x`,
/// `y` and `z` have one.
pub proof fn lemma_maj_bits(x: u32, y: u32, z: u32, i: u32)
    requires
        i < 32,
    ensures
        bit32(spec_maj(x, y, z), i) == ((bit32(x, i) && bit32(y, i)) || (bit32(x, i) && bit32(
            z,
            i,
        )) || (bit32(y, i) && bit32(z, i))),
{
    assert(bit32(spec_maj(x, y, z), i) == ((bit32(x, i) && bit32(y, i)) || (bit32(x, i)
        && bit32(z, i)) || (bit32(y, i) && bit32(z, i)))) by (bit_vector)
        requires
            i < 32,
    ;
}

/// Word `j` of a block: its bytes `4j .. 4j + 4`, most significant first.
pub open spec fn block_word(block: Seq<u8>, j: int) -> u32 {
    be_value(block.subrange(4 * j, 4 * j + 4)) as u32
}

/// Word `t` of the message schedule of a block: the block's own words for
/// `t < 16`, and from there on a mix of four earlier schedule words.
pub open spec fn schedule_word(block: Seq<u8>, t: int) -> u32
    decreases t,
{
    if t < 16 {
        block_word(block, t)
    } else {
        spec_s_sigma1_256(schedule_word(block, t - 2)).wrapping_add(
            schedule_word(block, t - 7),
        ).wrapping_add(spec_s_sigma0_256(schedule_word(block, t - 15))).wrapping_add(
            schedule_word(block, t - 16),
        )
    }
}

/// The message schedule of a block: 64 words.
pub open spec fn spec_expand(block: Seq<u8>) -> Seq<u32> {
    Seq::new(64, |t: int| schedule_word(block, t))
}

/// Expands a 64-byte block into its message schedule.
pub fn expand(block: &[u8]) -> (schedule: [u32; 64])
    requires
        block@.len() == 64,
    ensures
        schedule@ == spec_expand(block@),
{
    let mut msg_schedule: [u32; 64] = [0u32; 64];
    let mut t: usize = 0;
    while t < 16
        invariant
            t <= 16,
            block@.len() == 64,
            forall|j: int| 0 <= j < t ==> msg_schedule@[j] == schedule_word(block@, j),
        decreases 16 - t,
    {
        let word = slice_subrange(block, 4 * t, 4 * t + 4);
        assert(word@.subrange(0, 4) =~= word@);
        msg_schedule[t] = read_u32(word);
        t += 1;
    }
    while t < 64
        invariant
            16 <= t <= 64,
            forall|j: int| 0 <= j < t ==> msg_schedule@[j] == schedule_word(block@, j),
        decreases 64 - t,
    {
        msg_schedule[t] = s_sigma1_256(msg_schedule[t - 2]).wrapping_add(
            msg_schedule[t - 7],
        ).wrapping_add(s_sigma0_256(msg_schedule[t - 15])).wrapping_add(msg_schedule[t - 16]);
        t += 1;
    }
    assert(msg_schedule@ =~= spec_expand(block@));
    msg_schedule
}

/// One round: the eight working variables `a` to `h`, held as `v[0]` to
/// `v[7]`, after mixing in the round constant `k` and the schedule word `w`.
pub open spec fn spec_round(v: Seq<u32>, k: u32, w: u32) -> Seq<u32> {
    let t1 = v[7].wrapping_add(spec_b_sigma1_256(v[4])).wrapping_add(
        spec_ch(v[4], v[5], v[6]),
    ).wrapping_add(k).wrapping_add(w);
    let t2 = spec_b_sigma0_256(v[0]).wrapping_add(spec_maj(v[0], v[1], v[2]));
    seq![t1.wrapping_add(t2), v[0], v[1], v[2], v[3].wrapping_add(t1), v[4], v[5], v[6]]
}

/// The working variables after the first `n` rounds, starting from `v`.
pub open spec fn spec_rounds(v: Seq<u32>, schedule: Seq<u32>, n: nat) -> Seq<u32>
    decreases n,
{
    if n == 0 {
        v
    } else {
        spec_round(spec_rounds(v, schedule, (n - 1) as nat), SHA_256@[n - 1], schedule[n - 1])
    }
}

/// The chaining value after a block: the working variables start as the
/// chaining value before the block, go through the 64 rounds, and are added
/// word by word to the value they started from.
pub open spec fn spec_compress(chaining: Seq<u32>, schedule: Seq<u32>) -> Seq<u32> {
    let v = spec_rounds(chaining, schedule, 64);
    Seq::new(8, |i: int| chaining[i].wrapping_add(v[i]))
}

/// Folds the schedule of one block into the chaining value.
pub fn compress(chaining: &[u32; 8], schedule: &[u32; 64]) -> (next: [u32; 8])
    ensures
        next@ == spec_compress(chaining@, schedule@),
{
    let mut a = chaining[0];
    let mut b = chaining[1];
    let mut c = chaining[2];
    let mut d = chaining[3];
    let mut e = chaining[4];
    let mut f = chaining[5];
    let mut g = chaining[6];
    let mut h = chaining[7];
    assert(seq![a, b, c, d, e, f, g, h] =~= chaining@);
    let mut t: usize = 0;
    while t < 64
        invariant
            t <= 64,
            seq![a, b, c, d, e, f, g, h] == spec_rounds(chaining@, schedule@, t as nat),
        decreases 64 - t,
    {
        let t1 = h.wrapping_add(b_sigma1_256(e)).wrapping_add(ch(e, f, g)).wrapping_add(
            SHA_256[t],
        ).wrapping_add(schedule[t]);
        let t2 = b_sigma0_256(a).wrapping_add(maj(a, b, c));
        h = g;
        g = f;
        f = e;
        e = d.wrapping_add(t1);
        d = c;
        c = b;
        b = a;
        a = t1.wrapping_add(t2);
        t += 1;
    }
    let next = [
        chaining[0].wrapping_add(a),
        chaining[1].wrapping_add(b),
        chaining[2].wrapping_add(c),
        chaining[3].wrapping_add(d),
        chaining[4].wrapping_add(e),
        chaining[5].wrapping_add(f),
        chaining[6].wrapping_add(g),
        chaining[7].wrapping_add(h),
    ];
    assert(next@ =~= spec_compress(chaining@, schedule@));
    next
}

/// Block `i` of a padded message: its bytes `64i .. 64i + 64`.
pub open spec fn spec_block(padded: Seq<u8>, i: int) -> Seq<u8> {
    padded.subrange(64 * i, 64 * i + 64)
}

/// The chaining value after the first `n` blocks of `padded`.
pub open spec fn spec_chain(padded: Seq<u8>, n: nat) -> Seq<u32>
    decreases n,
{
    if n == 0 {
        SHA_256_INIT@
    } else {
        spec_compress(spec_chain(padded, (n - 1) as nat), spec_expand(spec_block(padded, n - 1)))
    }
}

/// The SHA-256 digest of `msg`: the chaining value after the last block of
/// the padded message.
pub open spec fn spec_digest(msg: Seq<u8>) -> Seq<u32> {
    spec_chain(spec_pad(msg), spec_pad(msg).len() / 64)
}

/// What `hash` returns: nothing for the empty message, the digest for
/// every other.
pub open spec fn spec_hash(msg: Seq<u8>) -> Option<Seq<u32>> {
    if msg.len() == 0 {
        None
    } else {
        Some(spec_digest(msg))
    }
}

/// The SHA-256 digest of `msg`, the empty message included.
pub fn digest(msg: &[u8]) -> (hashes: [u32; 8])
    requires
        padded_len(msg@.len()) <= isize::MAX,
    ensures
        hashes@ == spec_digest(msg@),
{
    let padded_message = pad_message(msg);
    let blocks = padded_message.len() / 64;
    let mut hashes = SHA_256_INIT;
    let mut i: usize = 0;
    while i < blocks
        invariant
            i <= blocks,
            blocks * 64 == padded_message@.len() <= usize::MAX,
            hashes@ == spec_chain(padded_message@, i as nat),
        decreases blocks - i,
    {
        let block = slice_subrange(padded_message.as_slice(), 64 * i, 64 * i + 64);
        let msg_schedule = expand(block);
        hashes = compress(&hashes, &msg_schedule);
        i += 1;
    }
    hashes
}

/// The SHA-256 digest of a message that is not empty; `None` for the empty
/// message, whose digest `digest` computes.
pub fn hash(msg: &[u8]) -> (r: Option<[u32; 8]>)
    requires
        padded_len(msg@.len()) <= isize::MAX,
    ensures
        r is None <==> msg@.len() == 0,
        match r {
            Some(hashes) => spec_hash(msg@) == Some(hashes@),
            None => spec_hash(msg@) is None,
        },
{
    if msg.is_empty() {
        None
    } else {
        Some(digest(msg))
    }
}

/// The zero padding is the least that completes a block: fewer zero bytes
/// would leave the padded message short of a multiple of 64 bytes.
pub proof fn lemma_zero_pad_len_least(len: nat, fewer: nat)
    ensures
        zero_pad_len(len) < 64,
        padded_len(len) % 64 == 0,
        (padded_len(len) * 8) % 512 == 0,
        fewer < zero_pad_len(len) ==> (len + 1 + fewer + 8) % 64 != 0,
{
}

/// Counted in bits, the padding is a one, the least number of zeros, and
/// the length field: the marker byte gives the one and seven zeros, each
/// zero byte eight more, and with fewer zeros the whole would not be a
/// multiple of 512 bits.
pub proof fn lemma_zero_bits_least(len: nat, fewer: nat)
    ensures
        (8 * len + 1 + (7 + 8 * zero_pad_len(len)) + 64) % 512 == 0,
        8 * padded_len(len) == 8 * len + 1 + (7 + 8 * zero_pad_len(len)) + 64,
        fewer < 7 + 8 * zero_pad_len(len) ==> (8 * len + 1 + fewer + 64) % 512 != 0,
{
    lemma_zero_pad_len_least(len, fewer / 8);
    if fewer < 7 + 8 * zero_pad_len(len) {
        if fewer % 8 == 7 {
            // a whole number of bytes, and fewer zero bytes than needed
            assert(8 * len + 1 + fewer + 64 == 8 * (len + 1 + fewer / 8 + 8));
            assert((8 * (len + 1 + fewer / 8 + 8)) % 512 != 0);
        } else {
            // not a whole number of bytes
            assert((8 * len + 1 + fewer + 64) % 8 != 0);
        }
    }
}

/// A padded message is a whole number of 512-bit blocks, and at least one.
pub proof fn lemma_pad_whole_blocks(msg: Seq<u8>)
    ensures
        spec_pad(msg).len() == padded_len(msg.len()),
        (spec_pad(msg).len() * 8) % 512 == 0,
        spec_pad(msg).len() % 64 == 0,
        spec_pad(msg).len() >= 64,
{
    lemma_be_bytes_len(length_field(msg.len()), 8);
    lemma_zero_pad_len_least(msg.len(), 0);
}

/// A padded message begins with the message, goes on with the marker byte
/// and with zeros only, and ends with the eight bytes that spell the
/// message's length in bits, reduced modulo 2^64.
pub proof fn lemma_pad_layout(msg: Seq<u8>)
    ensures
        spec_pad(msg).subrange(0, msg.len() as int) == msg,
        spec_pad(msg)[msg.len() as int] == 0x80,
        forall|i: int|
            msg.len() < i < spec_pad(msg).len() - 8 ==> #[trigger] spec_pad(msg)[i] == 0,
        spec_pad(msg).subrange(spec_pad(msg).len() - 8, spec_pad(msg).len() as int) == be_bytes(
            length_field(msg.len()),
            8,
        ),
        be_value(spec_pad(msg).subrange(spec_pad(msg).len() - 8, spec_pad(msg).len() as int)) == (8
            * msg.len()) % 0x1_0000_0000_0000_0000,
{
    let field = be_bytes(length_field(msg.len()), 8);
    let padded = spec_pad(msg);
    lemma_be_bytes_len(length_field(msg.len()), 8);
    assert(padded.subrange(0, msg.len() as int) =~= msg);
    assert(padded.subrange(padded.len() - 8, padded.len() as int) =~= field);
    assert(be_value(field) == length_field(msg.len())) by {
        lemma_be_value_of_be_bytes(length_field(msg.len()), 8);
        lemma_pow256();
    }
}

/// Padding loses nothing: messages with the same padding are the same
/// message.
pub proof fn lemma_pad_injective(first: Seq<u8>, second: Seq<u8>)
    requires
        spec_pad(first) == spec_pad(second),
    ensures
        first == second,
{
    let padded = spec_pad(first);
    lemma_pad_whole_blocks(first);
    lemma_pad_whole_blocks(second);
    lemma_pad_layout(first);
    lemma_pad_layout(second);
    // the marker of the longer message would stand among the zeros of the shorter
    if first.len() < second.len() {
        assert(padded[second.len() as int] == 0);
    } else if second.len() < first.len() {
        assert(padded[first.len() as int] == 0);
    }
    assert(first =~= padded.subrange(0, first.len() as int));
}

/// Every block of a padded message has 64 bytes.
pub proof fn lemma_block_len(padded: Seq<u8>, i: int)
    requires
        0 <= i < padded.len() / 64,
    ensures
        spec_block(padded, i).len() == 64,
{
}

/// A word of a block is the number that its four bytes spell, which fits
/// the word: `b[4j]·2^24 + b[4j+1]·2^16 + b[4j+2]·2^8 + b[4j+3]`.
pub proof fn lemma_block_word(block: Seq<u8>, j: int)
    requires
        block.len() == 64,
        0 <= j < 16,
    ensures
        block_word(block, j) as nat == be_value(block.subrange(4 * j, 4 * j + 4)),
        block_word(block, j) == block[4 * j] as nat * 0x100_0000 + block[4 * j + 1] as nat * 0x1_0000
            + block[4 * j + 2] as nat * 0x100 + block[4 * j + 3] as nat,
{
    let word = block.subrange(4 * j, 4 * j + 4);
    lemma_be_value_4(word);
}

/// The first sixteen words of a schedule are the words of the block; each
/// later word is made of the words 2, 7, 15 and 16 places before it.
pub proof fn lemma_schedule_entries(block: Seq<u8>, t: int)
    requires
        0 <= t < 64,
    ensures
        spec_expand(block).len() == 64,
        t < 16 ==> spec_expand(block)[t] == block_word(block, t),
        t >= 16 ==> spec_expand(block)[t] == spec_s_sigma1_256(
            spec_expand(block)[t - 2],
        ).wrapping_add(spec_expand(block)[t - 7]).wrapping_add(
            spec_s_sigma0_256(spec_expand(block)[t - 15]),
        ).wrapping_add(spec_expand(block)[t - 16]),
{
}

/// A chaining value has eight words, whatever the blocks before it.
pub proof fn lemma_chain_len(padded: Seq<u8>, n: nat)
    ensures
        spec_chain(padded, n).len() == 8,
{
    if n == 0 {
        assert(SHA_256_INIT@.len() == 8);
    }
}

/// The chaining value after `n` blocks depends on those blocks alone: what
/// follows them in the padded message does not change it.
pub proof fn lemma_chain_prefix(blocks: Seq<u8>, rest: Seq<u8>, n: nat)
    requires
        64 * n <= blocks.len(),
    ensures
        spec_chain(blocks + rest, n) == spec_chain(blocks, n),
    decreases n,
{
    if n > 0 {
        lemma_chain_prefix(blocks, rest, (n - 1) as nat);
        assert(spec_block(blocks + rest, n - 1) =~= spec_block(blocks, n - 1));
    }
}

/// A digest has eight words, whatever the length of the message.
pub proof fn lemma_digest_len(msg: Seq<u8>)
    ensures
        spec_digest(msg).len() == 8,
{
    lemma_chain_len(spec_pad(msg), spec_pad(msg).len() / 64);
}

/// The digest is a function of the message's bytes and of nothing else:
/// messages with the same bytes have the same digest, and `hash` returns
/// the same for both.
pub proof fn lemma_hash_deterministic(first: Seq<u8>, second: Seq<u8>)
    requires
        first.len() == second.len(),
        forall|i: int| 0 <= i < first.len() ==> first[i] == second[i],
    ensures
        spec_digest(first) == spec_digest(second),
        spec_hash(first) == spec_hash(second),
{
    assert(first =~= second);
}

/// Blocks are chained: the working variables of a block start as the
/// chaining value that the block before it left, unchanged, and the block
/// leaves the compression of that value with its own schedule. The first
/// block starts from the initial value.
pub proof fn lemma_chaining_feeds_next_block(msg: Seq<u8>, i: nat)
    requires
        i < spec_pad(msg).len() / 64,
    ensures
        spec_chain(spec_pad(msg), 0) == SHA_256_INIT@,
        spec_rounds(
            spec_chain(spec_pad(msg), i),
            spec_expand(spec_block(spec_pad(msg), i as int)),
            0,
        ) == spec_chain(spec_pad(msg), i),
        spec_chain(spec_pad(msg), i + 1) == spec_compress(
            spec_chain(spec_pad(msg), i),
            spec_expand(spec_block(spec_pad(msg), i as int)),
        ),
        i + 1 == spec_pad(msg).len() / 64 ==> spec_digest(msg) == spec_chain(
            spec_pad(msg),
            i + 1,
        ),
{
}

/// The initial chaining value.
pub const SHA_256_INIT: [u32; 8] = [
    0x6a09e667, 0xbb67ae85, 0x3c6ef372, 0xa54ff53a, 0x510e527f, 0x9b05688c, 0x1f83d9ab, 0x5be0cd19,
];

/// The round constants.
pub const SHA_256: [u32; 64] = [
    0x428a2f98, 0x71374491, 0xb5c0fbcf, 0xe9b5dba5, 0x3956c25b, 0x59f111f1, 0x923f82a4, 0xab1c5ed5,
    0xd807aa98, 0x12835b01, 0x243185be, 0x550c7dc3, 0x72be5d74, 0x80deb1fe, 0x9bdc06a7, 0xc19bf174,
    0xe49b69c1, 0xefbe4786, 0x0fc19dc6, 0x240ca1cc, 0x2de92c6f, 0x4a7484aa, 0x5cb0a9dc, 0x76f988da,
    0x983e5152, 0xa831c66d, 0xb00327c8, 0xbf597fc7, 0xc6e00bf3, 0xd5a79147, 0x06ca6351, 0x14292967,
    0x27b70a85, 0x2e1b2138, 0x4d2c6dfc, 0x53380d13, 0x650a7354, 0x766a0abb, 0x81c2c92e, 0x92722c85,
    0xa2bfe8a1, 0xa81a664b, 0xc24b8b70, 0xc76c51a3, 0xd192e819, 0xd6990624, 0xf40e3585, 0x106aa070,
    0x19a4c116, 0x1e376c08, 0x2748774c, 0x34b0bcb5, 0x391c0cb3, 0x4ed8aa4a, 0x5b9cca4f, 0x682e6ff3,
    0x748f82ee, 0x78a5636f, 0x84c87814, 0x8cc70208, 0x90befffa, 0xa4506ceb, 0xbef9a3f7, 0xc67178f2,
];

} // verus!
