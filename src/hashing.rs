//! Byte encodings and the SHA-256 digest the Merkle tree is built with.
use vstd::prelude::*;

verus! {

/// The SHA-256 digest of a byte string.
pub uninterp spec fn sha256_of(data: Seq<u8>) -> Seq<u8>;

/// Relies on `sha2::Sha256::digest`: the 32-byte SHA-256 digest of `data`,
/// which depends on the bytes alone.
#[verifier::external_body]
pub(crate) fn sha256(data: &[u8]) -> (r: [u8; 32])
    ensures
        r@ == sha256_of(data@),
{
    <sha2::Sha256 as sha2::Digest>::digest(data).into()
}

/// The eight little-endian bytes of `n`.
pub open spec fn le_bytes(n: u64) -> Seq<u8> {
    Seq::new(8, |i: int| ((n >> ((8 * i) as u64)) & 0xff) as u8)
}

/// Appends the little-endian bytes of `n` to `out`.
pub fn push_le_bytes(out: &mut Vec<u8>, n: u64)
    ensures
        final(out)@ == old(out)@ + le_bytes(n),
{
    let ghost start = out@;
    let mut i: u64 = 0;
    while i < 8
        invariant
            i <= 8,
            out@ == start + le_bytes(n).take(i as int),
        decreases 8 - i,
    {
        out.push(((n >> (8 * i)) & 0xff) as u8);
        assert(le_bytes(n).take(i as int + 1) =~= le_bytes(n).take(i as int).push(le_bytes(n)[i as int]));
        i = i + 1;
    }
    assert(le_bytes(n).take(8) =~= le_bytes(n));
}

/// Appends the 32 bytes of `block` to `out`.
pub fn push_block(out: &mut Vec<u8>, block: &[u8; 32])
    ensures
        final(out)@ == old(out)@ + block@,
{
    let ghost start = out@;
    let mut i: usize = 0;
    while i < 32
        invariant
            i <= 32,
            block@.len() == 32,
            out@ == start + block@.take(i as int),
        decreases 32 - i,
    {
        out.push(block[i]);
        assert(block@.take(i as int + 1) =~= block@.take(i as int).push(block@[i as int]));
        i = i + 1;
    }
    assert(block@.take(32) =~= block@);
}

} // verus!
