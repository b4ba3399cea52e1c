//! Word arithmetic shared by the two digest variants: rotations and logical
//! shifts on 32-bit and 64-bit words.
use vstd::prelude::*;

verus! {

/// `x` rotated left by `n` bit positions in a 64-bit word.
pub open spec fn spec_rotl64(n: u64, x: u64) -> u64 {
    (x << n) | (x >> ((64 - n) as u64))
}

/// `x` rotated right by `n` bit positions in a 64-bit word.
pub open spec fn spec_rotr64(n: u64, x: u64) -> u64 {
    (x >> n) | (x << ((64 - n) as u64))
}

/// `x` shifted right by `n` bit positions, zeros entering from the left.
pub open spec fn spec_shr64(n: u64, x: u64) -> u64 {
    x >> n
}

/// `x` rotated left by `n` bit positions in a 32-bit word.
pub open spec fn spec_rotl32(n: u32, x: u32) -> u32 {
    (x << n) | (x >> ((32 - n) as u32))
}

/// `x` rotated right by `n` bit positions in a 32-bit word.
pub open spec fn spec_rotr32(n: u32, x: u32) -> u32 {
    (x >> n) | (x << ((32 - n) as u32))
}

/// `x` shifted right by `n` bit positions, zeros entering from the left.
pub open spec fn spec_shr32(n: u32, x: u32) -> u32 {
    x >> n
}

/// Whether bit `i` of the 32-bit word `x` is set; bit 0 is the least
/// significant.
pub open spec fn bit32(x: u32, i: u32) -> bool {
    (x >> i) & 1 == 1
}

/// Whether bit `i` of the 64-bit word `x` is set; bit 0 is the least
/// significant.
pub open spec fn bit64(x: u64, i: u64) -> bool {
    (x >> i) & 1 == 1
}

/// Rotates `x` left by `n` places. A rotation by zero or by the whole word
/// width is not a rotation and is excluded.
pub fn rotl64(n: u64, x: u64) -> (r: u64)
    requires
        0 < n < 64,
    ensures
        r == spec_rotl64(n, x),
{
    (x << n) | (x >> (64 - n))
}

/// Rotates `x` right by `n` places. A rotation by zero or by the whole word
/// width is not a rotation and is excluded.
pub fn rotr64(n: u64, x: u64) -> (r: u64)
    requires
        0 < n < 64,
    ensures
        r == spec_rotr64(n, x),
{
    (x >> n) | (x << (64 - n))
}

/// Shifts `x` right by `n` places, filling with zeros.
pub fn shr64(n: u64, x: u64) -> (r: u64)
    requires
        n < 64,
    ensures
        r == spec_shr64(n, x),
{
    x >> n
}

/// Rotates `x` left by `n` places. A rotation by zero or by the whole word
/// width is not a rotation and is excluded.
pub fn rotl32(n: u32, x: u32) -> (r: u32)
    requires
        0 < n < 32,
    ensures
        r == spec_rotl32(n, x),
{
    (x << n) | (x >> (32 - n))
}

/// Rotates `x` right by `n` places. A rotation by zero or by the whole word
/// width is not a rotation and is excluded.
pub fn rotr32(n: u32, x: u32) -> (r: u32)
    requires
        0 < n < 32,
    ensures
        r == spec_rotr32(n, x),
{
    (x >> n) | (x << (32 - n))
}

/// Shifts `x` right by `n` places, filling with zeros.
pub fn shr32(n: u32, x: u32) -> (r: u32)
    requires
        n < 32,
    ensures
        r == spec_shr32(n, x),
{
    x >> n
}

/// Bit `i` of a word rotated right by `n` is bit `i + n` of the word,
/// counted round the word.
pub proof fn lemma_rotr32_bits(n: u32, x: u32, i: u32)
    requires
        0 < n < 32,
        i < 32,
    ensures
        bit32(spec_rotr32(n, x), i) == bit32(x, ((i + n) % 32) as u32),
{
    assert(bit32(spec_rotr32(n, x), i) == bit32(x, ((i + n) % 32) as u32)) by (bit_vector)
        requires
            0 < n < 32,
            i < 32,
    ;
}

/// Bit `i` of a word rotated left by `n` is bit `i - n` of the word, counted
/// round the word.
pub proof fn lemma_rotl32_bits(n: u32, x: u32, i: u32)
    requires
        0 < n < 32,
        i < 32,
    ensures
        bit32(spec_rotl32(n, x), i) == bit32(x, ((i + 32 - n) % 32) as u32),
{
    assert(bit32(spec_rotl32(n, x), i) == bit32(x, ((i + 32 - n) % 32) as u32)) by (bit_vector)
        requires
            0 < n < 32,
            i < 32,
    ;
}

/// Bit `i` of a word shifted right by `n` is bit `i + n` of the word, and
/// clear where the word has no such bit.
pub proof fn lemma_shr32_bits(n: u32, x: u32, i: u32)
    requires
        n < 32,
        i < 32,
    ensures
        bit32(spec_shr32(n, x), i) == (i + n < 32 && bit32(x, (i + n) as u32)),
{
    assert(bit32(spec_shr32(n, x), i) == (i + n < 32 && bit32(x, (i + n) as u32))) by (bit_vector)
        requires
            n < 32,
            i < 32,
    ;
}

/// A right rotation by `n` undoes a left rotation by `n`, and the other way
/// round.
pub proof fn lemma_rot32_inverse(n: u32, x: u32)
    requires
        0 < n < 32,
    ensures
        spec_rotr32(n, spec_rotl32(n, x)) == x,
        spec_rotl32(n, spec_rotr32(n, x)) == x,
{
    assert(spec_rotr32(n, spec_rotl32(n, x)) == x) by (bit_vector)
        requires
            0 < n < 32,
    ;
    assert(spec_rotl32(n, spec_rotr32(n, x)) == x) by (bit_vector)
        requires
            0 < n < 32,
    ;
}

/// Rotating right by `n` is rotating left by the rest of the word.
pub proof fn lemma_rotr32_is_rotl32(n: u32, x: u32)
    requires
        0 < n < 32,
    ensures
        spec_rotr32(n, x) == spec_rotl32((32 - n) as u32, x),
{
    assert(spec_rotr32(n, x) == spec_rotl32((32 - n) as u32, x)) by (bit_vector)
        requires
            0 < n < 32,
    ;
}

/// Bit `i` of a word rotated right by `n` is bit `i + n` of the word,
/// counted round the word.
pub proof fn lemma_rotr64_bits(n: u64, x: u64, i: u64)
    requires
        0 < n < 64,
        i < 64,
    ensures
        bit64(spec_rotr64(n, x), i) == bit64(x, ((i + n) % 64) as u64),
{
    assert(bit64(spec_rotr64(n, x), i) == bit64(x, ((i + n) % 64) as u64)) by (bit_vector)
        requires
            0 < n < 64,
            i < 64,
    ;
}

/// Bit `i` of a word rotated left by `n` is bit `i - n` of the word, counted
/// round the word.
pub proof fn lemma_rotl64_bits(n: u64, x: u64, i: u64)
    requires
        0 < n < 64,
        i < 64,
    ensures
        bit64(spec_rotl64(n, x), i) == bit64(x, ((i + 64 - n) % 64) as u64),
{
    assert(bit64(spec_rotl64(n, x), i) == bit64(x, ((i + 64 - n) % 64) as u64)) by (bit_vector)
        requires
            0 < n < 64,
            i < 64,
    ;
}

/// Bit `i` of a word shifted right by `n` is bit `i + n` of the word, and
/// clear where the word has no such bit.
pub proof fn lemma_shr64_bits(n: u64, x: u64, i: u64)
    requires
        n < 64,
        i < 64,
    ensures
        bit64(spec_shr64(n, x), i) == (i + n < 64 && bit64(x, (i + n) as u64)),
{
    assert(bit64(spec_shr64(n, x), i) == (i + n < 64 && bit64(x, (i + n) as u64))) by (bit_vector)
        requires
            n < 64,
            i < 64,
    ;
}

/// A right rotation by `n` undoes a left rotation by `n`, and the other way
/// round.
#[verifier::rlimit(40)]
pub proof fn lemma_rot64_inverse(n: u64, x: u64)
    requires
        0 < n < 64,
    ensures
        spec_rotr64(n, spec_rotl64(n, x)) == x,
        spec_rotl64(n, spec_rotr64(n, x)) == x,
{
    assert(spec_rotr64(n, spec_rotl64(n, x)) == x) by (bit_vector)
        requires
            0 < n < 64,
    ;
    assert(spec_rotl64(n, spec_rotr64(n, x)) == x) by (bit_vector)
        requires
            0 < n < 64,
    ;
}

/// Rotating right by `n` is rotating left by the rest of the word.
pub proof fn lemma_rotr64_is_rotl64(n: u64, x: u64)
    requires
        0 < n < 64,
    ensures
        spec_rotr64(n, x) == spec_rotl64((64 - n) as u64, x),
{
    assert(spec_rotr64(n, x) == spec_rotl64((64 - n) as u64, x)) by (bit_vector)
        requires
            0 < n < 64,
    ;
}

} // verus!
