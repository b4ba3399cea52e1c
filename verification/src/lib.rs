//! SHA-256 and SHA-512 message digests (FIPS 180-4), with machine-checked
//! contracts.
//!
//! Every function states what it computes over mathematical models: a
//! message is a `Seq<u8>`, a chaining value or a schedule is a sequence of
//! words, and the digest of a message is a spec function of the message's
//! bytes alone.
//!
//! The two variants live in `sha256` and `sha512`; `sha256_hash` and
//! `sha512_hash` are their entry points. `hash` returns `None` for the
//! empty message, and `digest` in each module computes the standard's
//! value for every message, the empty one included.
use vstd::prelude::*;

pub mod big_endian;
mod buffer;
pub mod sha256;
pub mod sha512;
pub mod util;

verus! {

/// The SHA-256 digest of `msg` as eight 32-bit words, or `None` where `msg`
/// is empty.
pub fn sha256_hash(msg: &[u8]) -> (r: Option<[u32; 8]>)
    requires
        sha256::padded_len(msg@.len()) <= isize::MAX,
    ensures
        r is None <==> msg@.len() == 0,
        match r {
            Some(hashes) => sha256::spec_hash(msg@) == Some(hashes@),
            None => sha256::spec_hash(msg@) is None,
        },
{
    sha256::hash(msg)
}

/// The SHA-512 digest of `msg` as eight 64-bit words, or `None` where `msg`
/// is empty.
pub fn sha512_hash(msg: &[u8]) -> (r: Option<[u64; 8]>)
    requires
        sha512::padded_len(msg@.len()) <= isize::MAX,
    ensures
        r is None <==> msg@.len() == 0,
        match r {
            Some(hashes) => sha512::spec_hash(msg@) == Some(hashes@),
            None => sha512::spec_hash(msg@) is None,
        },
{
    sha512::hash(msg)
}

} // verus!
