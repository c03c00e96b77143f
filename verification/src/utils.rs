//! The transcript hash and small helpers on byte sequences.

use vstd::prelude::*;
use blake2::{Blake2b512, Digest};
use crate::config::HASH_SIZE;

verus! {

/// The BLAKE2b digest with 64 bytes of output of a byte sequence.
pub uninterp spec fn blake2b_512(data: Seq<u8>) -> Seq<u8>;

/// A sequence of `len` zero bytes.
pub open spec fn zeros(len: nat) -> Seq<u8> {
    Seq::new(len, |i: int| 0u8)
}

/// The hash that stands for "no predecessor": the digest of a zeroed hash
/// field.
pub open spec fn spec_blank_hash() -> Seq<u8> {
    blake2b_512(zeros(HASH_SIZE as nat))
}

/// Calls `blake2::Blake2b512::digest`: the result is the 64-byte BLAKE2b
/// digest of `data`, a function of the bytes alone.
#[verifier::external_body]
fn blake2b(data: &[u8]) -> (digest: Vec<u8>)
    ensures
        digest@ == blake2b_512(data@),
        digest@.len() == HASH_SIZE,
{
    Blake2b512::digest(data).to_vec()
}

/// The ceremony's content digest of a byte sequence.
pub fn hash_of(bytes: &[u8]) -> (digest: Vec<u8>)
    ensures
        digest@ == blake2b_512(bytes@),
        digest@.len() == HASH_SIZE,
{
    blake2b(bytes)
}

/// The input hash of the very first accumulator.
pub fn blank_hash() -> (digest: Vec<u8>)
    ensures
        digest@ == spec_blank_hash(),
        digest@.len() == HASH_SIZE,
{
    let buffer = zeroed(HASH_SIZE);
    hash_of(buffer.as_slice())
}

/// A buffer of `len` zero bytes.
pub fn zeroed(len: usize) -> (buffer: Vec<u8>)
    ensures
        buffer@ == zeros(len as nat),
{
    let mut buffer: Vec<u8> = Vec::new();
    let mut i: usize = 0;
    while i < len
        invariant
            i <= len,
            buffer@ == zeros(i as nat),
        decreases len - i,
    {
        buffer.push(0u8);
        i += 1;
        assert(buffer@ =~= zeros(i as nat));
    }
    buffer
}

/// Whether two byte sequences are equal.
pub fn bytes_equal(a: &[u8], b: &[u8]) -> (same: bool)
    ensures
        same == (a@ == b@),
{
    if a.len() != b.len() {
        return false;
    }
    let mut i: usize = 0;
    while i < a.len()
        invariant
            i <= a.len(),
            a.len() == b.len(),
            forall|j: int| 0 <= j < i ==> a@[j] == b@[j],
        decreases a.len() - i,
    {
        if a[i] != b[i] {
            return false;
        }
        i += 1;
    }
    assert(a@ =~= b@);
    true
}

/// Appends a copy of `source` to `target`.
pub fn append(target: &mut Vec<u8>, source: &[u8])
    ensures
        final(target)@ == old(target)@ + source@,
{
    let mut i: usize = 0;
    while i < source.len()
        invariant
            i <= source.len(),
            target@ == old(target)@ + source@.subrange(0, i as int),
        decreases source.len() - i,
    {
        target.push(source[i]);
        i += 1;
        assert(target@ =~= old(target)@ + source@.subrange(0, i as int));
    }
    assert(source@.subrange(0, source.len() as int) =~= source@);
}

/// A copy of `source[from..to]`.
pub fn copy_range(source: &[u8], from: usize, to: usize) -> (part: Vec<u8>)
    requires
        from <= to <= source@.len(),
    ensures
        part@ == source@.subrange(from as int, to as int),
{
    let mut part: Vec<u8> = Vec::new();
    let mut i: usize = from;
    while i < to
        invariant
            from <= i <= to <= source@.len(),
            part@ == source@.subrange(from as int, i as int),
        decreases to - i,
    {
        part.push(source[i]);
        i += 1;
        assert(part@ =~= source@.subrange(from as int, i as int));
    }
    part
}

} // verus!
