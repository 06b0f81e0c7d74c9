//! The fixed 68-byte handshake frame that opens every peer connection:
//! `0x13 | "BitTorrent protocol" | 8 reserved bytes | info_hash | peer_id`.

use vstd::prelude::*;

use crate::error::SessionError;
use crate::util::to_array;

verus! {

/// The 19 ASCII bytes of `BitTorrent protocol`.
pub open spec fn spec_protocol_name() -> Seq<u8> {
    seq![
        0x42u8, 0x69, 0x74, 0x54, 0x6f, 0x72, 0x72, 0x65, 0x6e, 0x74, 0x20, 0x70, 0x72, 0x6f,
        0x74, 0x6f, 0x63, 0x6f, 0x6c,
    ]
}

/// Eight zero bytes: the reserved field this client sends.
pub open spec fn spec_reserved() -> Seq<u8> {
    seq![0u8, 0, 0, 0, 0, 0, 0, 0]
}

/// The protocol identifier as a byte array.
pub fn protocol_name() -> (r: [u8; 19])
    ensures
        r@ == spec_protocol_name(),
{
    [
        0x42u8, 0x69, 0x74, 0x54, 0x6f, 0x72, 0x72, 0x65, 0x6e, 0x74, 0x20, 0x70, 0x72, 0x6f,
        0x74, 0x6f, 0x63, 0x6f, 0x6c,
    ]
}

/// One parsed handshake frame.
#[derive(Debug, Clone, PartialEq)]
pub struct Handshake {
    pub info_hash: [u8; 20],
    pub peer_id: [u8; 20],
    pub protocol_name: [u8; 19],
    pub reserved: [u8; 8],
}

/// The mathematical content of a handshake: its four fields as byte sequences.
#[verifier::ext_equal]
pub struct HandshakeView {
    pub info_hash: Seq<u8>,
    pub peer_id: Seq<u8>,
    pub protocol_name: Seq<u8>,
    pub reserved: Seq<u8>,
}

impl HandshakeView {
    /// Field lengths as the frame prescribes, with the reserved bytes this
    /// client writes.
    pub open spec fn wf(self) -> bool {
        &&& self.info_hash.len() == 20
        &&& self.peer_id.len() == 20
        &&& self.protocol_name.len() == 19
        &&& self.reserved == spec_reserved()
    }
}

impl View for Handshake {
    type V = HandshakeView;

    open spec fn view(&self) -> HandshakeView {
        HandshakeView {
            info_hash: self.info_hash@,
            peer_id: self.peer_id@,
            protocol_name: self.protocol_name@,
            reserved: self.reserved@,
        }
    }
}

impl Handshake {
    /// A handshake for `info_hash` sent under `peer_id`.
    pub fn new(info_hash: &[u8; 20], peer_id: &[u8; 20]) -> (r: Self)
        ensures
            r@ == (HandshakeView {
                info_hash: info_hash@,
                peer_id: peer_id@,
                protocol_name: spec_protocol_name(),
                reserved: spec_reserved(),
            }),
            r@.wf(),
    {
        let r = Handshake {
            info_hash: *info_hash,
            peer_id: *peer_id,
            protocol_name: protocol_name(),
            reserved: [0u8; 8],
        };
        proof {
            assert(r.reserved@ =~= spec_reserved());
            assert(r@ =~= (HandshakeView {
                info_hash: info_hash@,
                peer_id: peer_id@,
                protocol_name: spec_protocol_name(),
                reserved: spec_reserved(),
            }));
        }
        r
    }
}

/// The 68 bytes a handshake encodes to.
pub open spec fn spec_handshake_frame(h: HandshakeView) -> Seq<u8> {
    seq![19u8] + h.protocol_name + spec_reserved() + h.info_hash + h.peer_id
}

/// What decoding yields on a given buffer: `Ok(None)` while more bytes are
/// needed, the parsed frame and the 68 consumed bytes once it is complete, or
/// `HandshakeFormat` when the first byte is not the protocol-name length.
pub open spec fn spec_handshake_decode(src: Seq<u8>) -> Result<
    Option<(HandshakeView, int)>,
    SessionError,
> {
    if src.len() == 0 {
        Ok(None)
    } else if src[0] != 19 {
        Err(SessionError::HandshakeFormat)
    } else if src.len() < 68 {
        Ok(None)
    } else {
        Ok(
            Some(
                (
                    HandshakeView {
                        protocol_name: src.subrange(1, 20),
                        reserved: src.subrange(20, 28),
                        info_hash: src.subrange(28, 48),
                        peer_id: src.subrange(48, 68),
                    },
                    68,
                ),
            ),
        )
    }
}

/// The decoder's result with the handshake and the consumed count abstracted
/// to their mathematical views.
pub open spec fn spec_handshake_result(
    r: Result<Option<(Handshake, usize)>, SessionError>,
) -> Result<Option<(HandshakeView, int)>, SessionError> {
    match r {
        Ok(None) => Ok(None),
        Ok(Some((h, n))) => Ok(Some((h@, n as int))),
        Err(e) => Err(e),
    }
}

/// Encoder and decoder for the handshake phase of a peer connection.
#[derive(Debug)]
pub struct HandshakeCodec;

impl HandshakeCodec {
    /// Append the 68-byte frame of `item` to `dst`.
    pub fn encode(item: &Handshake, dst: &mut Vec<u8>)
        ensures
            final(dst)@ == old(dst)@ + spec_handshake_frame(item@),
    {
        dst.push(19);
        dst.extend_from_slice(item.protocol_name.as_slice());
        let zeroes: [u8; 8] = [0u8; 8];
        dst.extend_from_slice(zeroes.as_slice());
        dst.extend_from_slice(item.info_hash.as_slice());
        dst.extend_from_slice(item.peer_id.as_slice());
        proof {
            assert(zeroes@ =~= spec_reserved());
            assert(dst@ =~= old(dst)@ + spec_handshake_frame(item@));
        }
    }

    /// Decode one handshake frame from the front of `src`, consuming nothing:
    /// a successful result reports how many bytes (always 68) the caller must
    /// drop from its buffer.
    pub fn decode(src: &[u8]) -> (r: Result<Option<(Handshake, usize)>, SessionError>)
        ensures
            spec_handshake_result(r) == spec_handshake_decode(src@),
    {
        if src.len() == 0 {
            return Ok(None);
        }
        if src[0] != 19 {
            return Err(SessionError::HandshakeFormat);
        }
        if src.len() < 68 {
            return Ok(None);
        }
        let protocol_name: [u8; 19] = to_array(vstd::slice::slice_subrange(src, 1, 20));
        let reserved: [u8; 8] = to_array(vstd::slice::slice_subrange(src, 20, 28));
        let info_hash: [u8; 20] = to_array(vstd::slice::slice_subrange(src, 28, 48));
        let peer_id: [u8; 20] = to_array(vstd::slice::slice_subrange(src, 48, 68));
        let h = Handshake { info_hash, peer_id, protocol_name, reserved };
        proof {
            assert(spec_handshake_result(Ok(Some((h, 68usize)))) =~= spec_handshake_decode(src@));
        }
        Ok(Some((h, 68)))
    }
}

/// Round trip: a well-formed handshake decodes from its own 68-byte frame.
pub proof fn lemma_handshake_round_trip(h: HandshakeView)
    requires
        h.wf(),
    ensures
        spec_handshake_frame(h).len() == 68,
        spec_handshake_decode(spec_handshake_frame(h)) == Ok::<_, SessionError>(Some((h, 68int))),
{
    let f = spec_handshake_frame(h);
    assert(f.len() == 68);
    assert(f[0] == 19);
    assert(f.subrange(1, 20) =~= h.protocol_name);
    assert(f.subrange(20, 28) =~= h.reserved);
    assert(f.subrange(28, 48) =~= h.info_hash);
    assert(f.subrange(48, 68) =~= h.peer_id);
    assert(spec_handshake_decode(f) =~= Ok::<_, SessionError>(Some((h, 68int))));
}

} // verus!
