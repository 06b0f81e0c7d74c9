//! Piece descriptors and verified piece payloads: the units that travel the
//! work queue and the result sink.

use vstd::prelude::*;

use crate::util::bytes_eq;

verus! {

/// The 20-byte SHA-1 digest of a byte sequence. The digest depends on the
/// bytes alone; nothing here states which digest a given sequence has.
pub uninterp spec fn sha1_of(bytes: Seq<u8>) -> Seq<u8>;

/// Relies on `sha1::Sha1::digest`: a 20-byte digest computed from the input
/// bytes alone.
#[verifier::external_body]
fn sha1_digest(buf: &[u8]) -> (r: [u8; 20])
    ensures
        r@ == sha1_of(buf@),
{
    <sha1::Sha1 as sha1::Digest>::digest(buf).into()
}

/// One piece still to be downloaded: its index, advertised SHA-1 hash, and
/// length in bytes.
#[derive(Debug, Clone, PartialEq)]
pub struct PieceOfWork {
    pub idx: usize,
    pub hash: [u8; 20],
    pub length: usize,
}

/// A downloaded and SHA-1-verified piece, ready for the result sink.
#[derive(Debug, Clone, PartialEq)]
pub struct WorkResult {
    pub idx: usize,
    pub bytes: Vec<u8>,
}

impl PieceOfWork {
    /// Index and length representable in the wire protocol's `u32` fields;
    /// the length also fits a 32-bit address space, and a piece is never
    /// empty.
    pub open spec fn wf(&self) -> bool {
        &&& self.idx <= u32::MAX
        &&& 0 < self.length <= 0x7fff_ffff
    }

    /// `buf` is this piece: its SHA-1 digest equals the advertised hash and
    /// its length equals the descriptor's.
    pub open spec fn spec_verified(&self, buf: Seq<u8>) -> bool {
        &&& sha1_of(buf) == self.hash@
        &&& buf.len() == self.length
    }

    /// Check a candidate buffer against the descriptor.
    pub fn verify_buf(&self, buf: &[u8]) -> (r: bool)
        ensures
            r == self.spec_verified(buf@),
    {
        let digest = sha1_digest(buf);
        bytes_eq(digest.as_slice(), self.hash.as_slice()) && buf.len() == self.length
    }
}

} // verus!
