//! MSB-first bit access over a byte buffer: piece `i` is bit `7 - i % 8` of
//! byte `i / 8`, as the peer wire protocol lays out its bitfield messages.

use vstd::prelude::*;

verus! {

/// Whether piece `index` is present in `bytes`. Out-of-range indices read as
/// absent: peers may send bitfields of any length.
pub open spec fn spec_has_piece(bytes: Seq<u8>, index: int) -> bool {
    &&& 0 <= index
    &&& index / 8 < bytes.len()
    &&& (bytes[index / 8] >> ((7 - index % 8) as u8)) & 1u8 == 1u8
}

/// `bytes` with the bit of piece `index` set.
pub open spec fn spec_set_piece(bytes: Seq<u8>, index: int) -> Seq<u8> {
    bytes.update(index / 8, bytes[index / 8] | (1u8 << ((7 - index % 8) as u8)))
}

/// `bytes` with the bit of piece `index` cleared.
pub open spec fn spec_unset_piece(bytes: Seq<u8>, index: int) -> Seq<u8> {
    bytes.update(index / 8, bytes[index / 8] & !(1u8 << ((7 - index % 8) as u8)))
}

/// Read access to a piece bitfield.
pub trait Bitfield {
    /// The bytes the bitfield is read from.
    spec fn bf(&self) -> Seq<u8>;

    /// True when the bit of piece `index` is set; false for indices past the
    /// end of the buffer.
    fn has_piece(&self, index: usize) -> (r: bool)
        ensures
            r == spec_has_piece(self.bf(), index as int),
    ;
}

/// Write access to a piece bitfield.
pub trait BitfieldMut: Bitfield {
    /// Set the bit of piece `index`.
    fn set_piece(&mut self, index: usize)
        requires
            index / 8 < old(self).bf().len(),
        ensures
            final(self).bf() == spec_set_piece(old(self).bf(), index as int),
    ;

    /// Clear the bit of piece `index`.
    fn unset_piece(&mut self, index: usize)
        requires
            index / 8 < old(self).bf().len(),
        ensures
            final(self).bf() == spec_unset_piece(old(self).bf(), index as int),
    ;
}

impl Bitfield for Vec<u8> {
    open spec fn bf(&self) -> Seq<u8> {
        self@
    }

    fn has_piece(&self, index: usize) -> (r: bool)
        ensures
            r == spec_has_piece(self.bf(), index as int),
    {
        let byte_idx = index / 8;
        let offset = index % 8;
        if byte_idx < self.len() {
            let b = self[byte_idx];
            let sh = (7 - offset) as u8;
            let r = (b >> sh) & 1 != 0;
            proof {
                let bb = self@[byte_idx as int];
                let ss = (7 - (index as int) % 8) as u8;
                assert(((bb >> ss) & 1u8 != 0) == ((bb >> ss) & 1u8 == 1u8)) by (bit_vector);
            }
            r
        } else {
            false
        }
    }
}

impl BitfieldMut for Vec<u8> {
    fn set_piece(&mut self, index: usize) {
        let byte_idx = index / 8;
        let offset = index % 8;
        let sh = (7 - offset) as u8;
        let b = self[byte_idx] | (1u8 << sh);
        self.set(byte_idx, b);
    }

    fn unset_piece(&mut self, index: usize) {
        let byte_idx = index / 8;
        let offset = index % 8;
        let sh = (7 - offset) as u8;
        let b = self[byte_idx] & !(1u8 << sh);
        self.set(byte_idx, b);
    }
}

/// Setting a piece makes it read as present.
pub proof fn lemma_set_then_has(bytes: Seq<u8>, index: int)
    requires
        0 <= index,
        index / 8 < bytes.len(),
    ensures
        spec_has_piece(spec_set_piece(bytes, index), index),
{
    let sh = (7 - index % 8) as u8;
    let b = bytes[index / 8];
    assert(((b | (1u8 << sh)) >> sh) & 1u8 == 1u8) by (bit_vector)
        requires
            sh < 8,
    ;
}

/// Clearing a piece makes it read as absent.
pub proof fn lemma_unset_then_not_has(bytes: Seq<u8>, index: int)
    requires
        0 <= index,
        index / 8 < bytes.len(),
    ensures
        !spec_has_piece(spec_unset_piece(bytes, index), index),
{
    let sh = (7 - index % 8) as u8;
    let b = bytes[index / 8];
    assert(((b & !(1u8 << sh)) >> sh) & 1u8 != 1u8) by (bit_vector)
        requires
            sh < 8,
    ;
}

/// Setting a piece twice is the same as setting it once.
pub proof fn lemma_set_idempotent(bytes: Seq<u8>, index: int)
    requires
        0 <= index,
        index / 8 < bytes.len(),
    ensures
        spec_set_piece(spec_set_piece(bytes, index), index) == spec_set_piece(bytes, index),
{
    let sh = (7 - index % 8) as u8;
    let b = bytes[index / 8];
    assert((b | (1u8 << sh)) | (1u8 << sh) == b | (1u8 << sh)) by (bit_vector);
    assert(spec_set_piece(spec_set_piece(bytes, index), index) =~= spec_set_piece(bytes, index));
}

} // verus!
