//! Little-endian integers and byte strings, the building blocks of every
//! datagram and ledger record.

use vstd::bytes::{
    lemma_auto_spec_u64_to_from_le_bytes, spec_u64_from_le_bytes, spec_u64_to_le_bytes,
    u64_from_le_bytes, u64_to_le_bytes,
};
use vstd::prelude::*;
use vstd::slice::slice_subrange;

verus! {

/// The eight little-endian bytes of an unsigned word.
pub open spec fn le64(x: u64) -> Seq<u8> {
    spec_u64_to_le_bytes(x)
}

/// The eight little-endian bytes of a signed word, in two's complement.
pub open spec fn le64_signed(x: i64) -> Seq<u8> {
    spec_u64_to_le_bytes(x as u64)
}

/// The unsigned word that eight little-endian bytes spell.
pub open spec fn word_at(data: Seq<u8>, at: int) -> u64 {
    spec_u64_from_le_bytes(data.subrange(at, at + 8))
}

/// The signed word that eight little-endian bytes spell.
pub open spec fn signed_word_at(data: Seq<u8>, at: int) -> i64 {
    word_at(data, at) as i64
}

/// Encoding a word gives eight bytes, and reading them gives the word back.
pub proof fn lemma_le64_roundtrip(x: u64)
    ensures
        le64(x).len() == 8,
        word_at(le64(x), 0) == x,
{
    lemma_auto_spec_u64_to_from_le_bytes();
    assert(le64(x).subrange(0, 8) =~= le64(x));
}

/// Encoding a signed word gives eight bytes, and reading them gives it back.
pub proof fn lemma_le64_signed_roundtrip(x: i64)
    ensures
        le64_signed(x).len() == 8,
        signed_word_at(le64_signed(x), 0) == x,
{
    lemma_le64_roundtrip(x as u64);
    assert((x as u64) as i64 == x) by (bit_vector);
}

/// Eight bytes are the encoding of the word they spell.
pub proof fn lemma_word_at_encodes(data: Seq<u8>, at: int)
    requires
        0 <= at,
        at + 8 <= data.len(),
    ensures
        le64(word_at(data, at)) == data.subrange(at, at + 8),
        le64_signed(signed_word_at(data, at)) == data.subrange(at, at + 8),
{
    lemma_auto_spec_u64_to_from_le_bytes();
    let w = word_at(data, at);
    assert((w as i64) as u64 == w) by (bit_vector);
}

/// Appends the little-endian bytes of `x`.
pub fn put_u64(out: &mut Vec<u8>, x: u64)
    ensures
        final(out)@ == old(out)@ + le64(x),
{
    let bytes = u64_to_le_bytes(x);
    out.extend_from_slice(bytes.as_slice());
}

/// Appends the little-endian two's complement bytes of `x`.
pub fn put_i64(out: &mut Vec<u8>, x: i64)
    ensures
        final(out)@ == old(out)@ + le64_signed(x),
{
    let bytes = u64_to_le_bytes(
        #[verifier::truncate]
        (x as u64),
    );
    out.extend_from_slice(bytes.as_slice());
}

/// Appends `bytes` as they are.
pub fn put_bytes(out: &mut Vec<u8>, bytes: &[u8])
    ensures
        final(out)@ == old(out)@ + bytes@,
{
    out.extend_from_slice(bytes);
}

/// Reads the unsigned word that starts at `at`.
pub fn get_u64(data: &[u8], at: usize) -> (x: u64)
    requires
        at + 8 <= data@.len(),
    ensures
        x == word_at(data@, at as int),
{
    let n: usize = data.len();
    assert(at + 8 <= n);
    u64_from_le_bytes(slice_subrange(data, at, at + 8))
}

/// Reads the signed word that starts at `at`.
pub fn get_i64(data: &[u8], at: usize) -> (x: i64)
    requires
        at + 8 <= data@.len(),
    ensures
        x == signed_word_at(data@, at as int),
{
    let w: u64 = get_u64(data, at);
    #[verifier::truncate]
    (w as i64)
}

} // verus!
