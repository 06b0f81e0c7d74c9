//! The length-prefixed message frames of the peer wire protocol: a big-endian
//! `u32` length `L`, then (for `L > 0`) one id byte and `L - 1` payload bytes.

use vstd::prelude::*;

use crate::error::SessionError;
use crate::util::copy_range;

verus! {

/// The four big-endian bytes of `n`.
pub open spec fn spec_be32(n: u32) -> Seq<u8> {
    seq![
        (n / 0x100_0000) as u8,
        ((n / 0x1_0000) % 256) as u8,
        ((n / 256) % 256) as u8,
        (n % 256) as u8,
    ]
}

/// The value of four big-endian bytes.
pub open spec fn spec_be32_val(b: Seq<u8>) -> u32 {
    ((b[0] as int) * 0x100_0000 + (b[1] as int) * 0x1_0000 + (b[2] as int) * 256 + (b[3] as int)) as u32
}

/// The value of the four big-endian bytes of `src` starting at `at`.
pub open spec fn spec_be32_at(src: Seq<u8>, at: int) -> u32 {
    spec_be32_val(src.subrange(at, at + 4))
}

/// Reading back the four big-endian bytes of `n` yields `n`.
pub proof fn lemma_be32_round_trip(n: u32)
    ensures
        spec_be32(n).len() == 4,
        spec_be32_val(spec_be32(n)) == n,
{
    assert(n / 0x100_0000 < 256) by (bit_vector);
    assert(n / 0x100_0000 * 0x100_0000 + n / 0x1_0000 % 256 * 0x1_0000 + n / 256 % 256 * 256 + n
        % 256 == n) by (bit_vector);
}

/// Append the four big-endian bytes of `n` to `dst`.
pub fn push_be32(dst: &mut Vec<u8>, n: u32)
    ensures
        final(dst)@ == old(dst)@ + spec_be32(n),
{
    proof {
        assert(n / 0x100_0000 < 256) by (bit_vector);
    }
    dst.push((n / 0x100_0000) as u8);
    dst.push(((n / 0x1_0000) % 256) as u8);
    dst.push(((n / 256) % 256) as u8);
    dst.push((n % 256) as u8);
    proof {
        assert(dst@ =~= old(dst)@ + spec_be32(n));
    }
}

/// Read the four big-endian bytes of `src` starting at `at`.
pub fn read_be32(src: &[u8], at: usize) -> (r: u32)
    requires
        at + 4 <= src@.len(),
    ensures
        r == spec_be32_at(src@, at as int),
{
    let b0 = src[at];
    let b1 = src[at + 1];
    let b2 = src[at + 2];
    let b3 = src[at + 3];
    let r = (b0 as u32) * 0x100_0000 + (b1 as u32) * 0x1_0000 + (b2 as u32) * 256 + (b3 as u32);
    proof {
        let s = src@.subrange(at as int, at as int + 4);
        assert(s[0] == b0 && s[1] == b1 && s[2] == b2 && s[3] == b3);
    }
    r
}

/// One message of the peer wire protocol.
#[derive(Debug, Clone, PartialEq)]
pub enum PeerMessage {
    KeepAlive,
    /// id 0
    Choke,
    /// id 1
    Unchoke,
    /// id 2
    Interested,
    /// id 3
    NotInterested,
    /// id 4: piece index
    Have(u32),
    /// id 5: raw bitfield bytes
    Bitfield(Vec<u8>),
    /// id 6: index, begin, length
    Request(u32, u32, u32),
    /// id 7: index, begin, block bytes
    Piece(u32, u32, Vec<u8>),
    /// id 8: index, begin, length
    Cancel(u32, u32, u32),
}

/// The mathematical content of a message, with payloads as byte sequences.
#[verifier::ext_equal]
pub enum MessageView {
    KeepAlive,
    Choke,
    Unchoke,
    Interested,
    NotInterested,
    Have(u32),
    Bitfield(Seq<u8>),
    Request(u32, u32, u32),
    Piece(u32, u32, Seq<u8>),
    Cancel(u32, u32, u32),
}

impl View for PeerMessage {
    type V = MessageView;

    open spec fn view(&self) -> MessageView {
        match self {
            PeerMessage::KeepAlive => MessageView::KeepAlive,
            PeerMessage::Choke => MessageView::Choke,
            PeerMessage::Unchoke => MessageView::Unchoke,
            PeerMessage::Interested => MessageView::Interested,
            PeerMessage::NotInterested => MessageView::NotInterested,
            PeerMessage::Have(p) => MessageView::Have(*p),
            PeerMessage::Bitfield(p) => MessageView::Bitfield(p@),
            PeerMessage::Request(i, o, l) => MessageView::Request(*i, *o, *l),
            PeerMessage::Piece(i, o, d) => MessageView::Piece(*i, *o, d@),
            PeerMessage::Cancel(i, o, l) => MessageView::Cancel(*i, *o, *l),
        }
    }
}

impl MessageView {
    /// A payload small enough that `L = payload + 1` fits the length prefix.
    pub open spec fn wf(self) -> bool {
        match self {
            MessageView::Bitfield(b) => b.len() + 1 <= u32::MAX,
            MessageView::Piece(_, _, d) => d.len() + 9 <= u32::MAX,
            _ => true,
        }
    }
}

/// The payload length in bytes: what follows the id byte in the frame.
pub open spec fn spec_payload_len(v: MessageView) -> int {
    match v {
        MessageView::KeepAlive => 0,
        MessageView::Choke => 0,
        MessageView::Unchoke => 0,
        MessageView::Interested => 0,
        MessageView::NotInterested => 0,
        MessageView::Have(_) => 4,
        MessageView::Bitfield(b) => b.len() as int,
        MessageView::Request(_, _, _) => 12,
        MessageView::Piece(_, _, d) => 8 + d.len() as int,
        MessageView::Cancel(_, _, _) => 12,
    }
}

/// The wire id of the message; `KeepAlive` has none.
pub open spec fn spec_message_id(v: MessageView) -> Option<u8> {
    match v {
        MessageView::KeepAlive => None,
        MessageView::Choke => Some(0u8),
        MessageView::Unchoke => Some(1u8),
        MessageView::Interested => Some(2u8),
        MessageView::NotInterested => Some(3u8),
        MessageView::Have(_) => Some(4u8),
        MessageView::Bitfield(_) => Some(5u8),
        MessageView::Request(_, _, _) => Some(6u8),
        MessageView::Piece(_, _, _) => Some(7u8),
        MessageView::Cancel(_, _, _) => Some(8u8),
    }
}

impl PeerMessage {
    /// See `MessageView::wf`.
    pub open spec fn wf(&self) -> bool {
        self@.wf()
    }

    /// The number of payload bytes this message encodes after its id byte.
    pub fn payload_len(&self) -> (r: usize)
        requires
            self.wf(),
        ensures
            r == spec_payload_len(self@),
    {
        match self {
            PeerMessage::Choke
            | PeerMessage::Unchoke
            | PeerMessage::Interested
            | PeerMessage::NotInterested
            | PeerMessage::KeepAlive => 0,
            PeerMessage::Have(_) => 4,
            PeerMessage::Bitfield(p) => p.len(),
            PeerMessage::Request(_, _, _) => 12,
            PeerMessage::Piece(_, _, p) => 8 + p.len(),
            PeerMessage::Cancel(_, _, _) => 12,
        }
    }

    /// The wire id of this message; `KeepAlive` has none.
    pub fn message_id(&self) -> (r: Option<u8>)
        ensures
            r == spec_message_id(self@),
    {
        match self {
            PeerMessage::KeepAlive => None,
            PeerMessage::Choke => Some(0),
            PeerMessage::Unchoke => Some(1),
            PeerMessage::Interested => Some(2),
            PeerMessage::NotInterested => Some(3),
            PeerMessage::Have(_) => Some(4),
            PeerMessage::Bitfield(_) => Some(5),
            PeerMessage::Request(_, _, _) => Some(6),
            PeerMessage::Piece(_, _, _) => Some(7),
            PeerMessage::Cancel(_, _, _) => Some(8),
        }
    }
}

/// The bytes a message encodes to: length prefix, id byte, payload.
pub open spec fn spec_message_frame(v: MessageView) -> Seq<u8> {
    match v {
        MessageView::KeepAlive => spec_be32(0),
        MessageView::Choke => spec_be32(1) + seq![0u8],
        MessageView::Unchoke => spec_be32(1) + seq![1u8],
        MessageView::Interested => spec_be32(1) + seq![2u8],
        MessageView::NotInterested => spec_be32(1) + seq![3u8],
        MessageView::Have(p) => spec_be32(5) + seq![4u8] + spec_be32(p),
        MessageView::Bitfield(b) => spec_be32((b.len() + 1) as u32) + seq![5u8] + b,
        MessageView::Request(i, o, l) => spec_be32(13) + seq![6u8] + spec_be32(i) + spec_be32(o)
            + spec_be32(l),
        MessageView::Piece(i, o, d) => spec_be32((d.len() + 9) as u32) + seq![7u8] + spec_be32(i)
            + spec_be32(o) + d,
        MessageView::Cancel(i, o, l) => spec_be32(13) + seq![8u8] + spec_be32(i) + spec_be32(o)
            + spec_be32(l),
    }
}

/// What decoding yields on a given buffer: `Ok(None)` until the whole frame
/// of `4 + L` bytes is buffered, then the parsed message and the consumed
/// count, consumed atomically; a frame whose length does not fit its id, or
/// an unknown id, is a `ProtocolViolation`.
pub open spec fn spec_message_decode(src: Seq<u8>) -> Result<
    Option<(MessageView, int)>,
    SessionError,
> {
    if src.len() < 4 {
        Ok(None)
    } else {
        let len = spec_be32_val(src.subrange(0, 4)) as int;
        if src.len() < 4 + len {
            Ok(None)
        } else if len == 0 {
            Ok(Some((MessageView::KeepAlive, 4)))
        } else {
            let id = src[4];
            if id == 0 {
                if len == 1 {
                    Ok(Some((MessageView::Choke, 5)))
                } else {
                    Err(SessionError::ProtocolViolation)
                }
            } else if id == 1 {
                if len == 1 {
                    Ok(Some((MessageView::Unchoke, 5)))
                } else {
                    Err(SessionError::ProtocolViolation)
                }
            } else if id == 2 {
                if len == 1 {
                    Ok(Some((MessageView::Interested, 5)))
                } else {
                    Err(SessionError::ProtocolViolation)
                }
            } else if id == 3 {
                if len == 1 {
                    Ok(Some((MessageView::NotInterested, 5)))
                } else {
                    Err(SessionError::ProtocolViolation)
                }
            } else if id == 4 {
                if len == 5 {
                    Ok(Some((MessageView::Have(spec_be32_at(src, 5)), 9)))
                } else {
                    Err(SessionError::ProtocolViolation)
                }
            } else if id == 5 {
                Ok(Some((MessageView::Bitfield(src.subrange(5, 4 + len)), 4 + len)))
            } else if id == 6 {
                if len == 13 {
                    Ok(
                        Some(
                            (
                                MessageView::Request(
                                    spec_be32_at(src, 5),
                                    spec_be32_at(src, 9),
                                    spec_be32_at(src, 13),
                                ),
                                17,
                            ),
                        ),
                    )
                } else {
                    Err(SessionError::ProtocolViolation)
                }
            } else if id == 7 {
                if len >= 9 {
                    Ok(
                        Some(
                            (
                                MessageView::Piece(
                                    spec_be32_at(src, 5),
                                    spec_be32_at(src, 9),
                                    src.subrange(13, 4 + len),
                                ),
                                4 + len,
                            ),
                        ),
                    )
                } else {
                    Err(SessionError::ProtocolViolation)
                }
            } else if id == 8 {
                if len == 13 {
                    Ok(
                        Some(
                            (
                                MessageView::Cancel(
                                    spec_be32_at(src, 5),
                                    spec_be32_at(src, 9),
                                    spec_be32_at(src, 13),
                                ),
                                17,
                            ),
                        ),
                    )
                } else {
                    Err(SessionError::ProtocolViolation)
                }
            } else {
                Err(SessionError::ProtocolViolation)
            }
        }
    }
}

/// The decoder's result with the message and the consumed count abstracted to
/// their mathematical views.
pub open spec fn spec_message_result(
    r: Result<Option<(PeerMessage, usize)>, SessionError>,
) -> Result<Option<(MessageView, int)>, SessionError> {
    match r {
        Ok(None) => Ok(None),
        Ok(Some((m, n))) => Ok(Some((m@, n as int))),
        Err(e) => Err(e),
    }
}

/// Encoder and decoder for the message phase of a peer connection.
#[derive(Debug)]
pub struct PeerMessageCodec;

impl PeerMessageCodec {
    /// Append the frame of `item` to `dst`.
    pub fn encode(item: &PeerMessage, dst: &mut Vec<u8>)
        requires
            item.wf(),
        ensures
            final(dst)@ == old(dst)@ + spec_message_frame(item@),
    {
        match item {
            PeerMessage::KeepAlive => {
                push_be32(dst, 0);
            },
            PeerMessage::Choke => {
                push_be32(dst, 1);
                dst.push(0);
            },
            PeerMessage::Unchoke => {
                push_be32(dst, 1);
                dst.push(1);
            },
            PeerMessage::Interested => {
                push_be32(dst, 1);
                dst.push(2);
            },
            PeerMessage::NotInterested => {
                push_be32(dst, 1);
                dst.push(3);
            },
            PeerMessage::Have(p) => {
                push_be32(dst, 5);
                dst.push(4);
                push_be32(dst, *p);
            },
            PeerMessage::Bitfield(p) => {
                push_be32(dst, (p.len() + 1) as u32);
                dst.push(5);
                dst.extend_from_slice(p.as_slice());
            },
            PeerMessage::Piece(i, o, d) => {
                push_be32(dst, (d.len() + 9) as u32);
                dst.push(7);
                push_be32(dst, *i);
                push_be32(dst, *o);
                dst.extend_from_slice(d.as_slice());
            },
            PeerMessage::Request(i, o, l) => {
                push_be32(dst, 13);
                dst.push(6);
                push_be32(dst, *i);
                push_be32(dst, *o);
                push_be32(dst, *l);
            },
            PeerMessage::Cancel(i, o, l) => {
                push_be32(dst, 13);
                dst.push(8);
                push_be32(dst, *i);
                push_be32(dst, *o);
                push_be32(dst, *l);
            },
        }
        proof {
            assert(dst@ =~= old(dst)@ + spec_message_frame(item@));
        }
    }

    /// Decode one message frame from the front of `src`, consuming nothing: a
    /// successful result reports how many bytes the caller must drop from its
    /// buffer.
    pub fn decode(src: &[u8]) -> (r: Result<Option<(PeerMessage, usize)>, SessionError>)
        ensures
            spec_message_result(r) == spec_message_decode(src@),
    {
        if src.len() < 4 {
            return Ok(None);
        }
        let msg_len = read_be32(src, 0) as usize;
        if src.len() - 4 < msg_len {
            return Ok(None);
        }
        if msg_len == 0 {
            return Ok(Some((PeerMessage::KeepAlive, 4)));
        }
        let id = src[4];
        if id == 0 {
            if msg_len == 1 {
                Ok(Some((PeerMessage::Choke, 5)))
            } else {
                Err(SessionError::ProtocolViolation)
            }
        } else if id == 1 {
            if msg_len == 1 {
                Ok(Some((PeerMessage::Unchoke, 5)))
            } else {
                Err(SessionError::ProtocolViolation)
            }
        } else if id == 2 {
            if msg_len == 1 {
                Ok(Some((PeerMessage::Interested, 5)))
            } else {
                Err(SessionError::ProtocolViolation)
            }
        } else if id == 3 {
            if msg_len == 1 {
                Ok(Some((PeerMessage::NotInterested, 5)))
            } else {
                Err(SessionError::ProtocolViolation)
            }
        } else if id == 4 {
            if msg_len == 5 {
                let p = read_be32(src, 5);
                Ok(Some((PeerMessage::Have(p), 9)))
            } else {
                Err(SessionError::ProtocolViolation)
            }
        } else if id == 5 {
            let payload = copy_range(src, 5, 4 + msg_len);
            Ok(Some((PeerMessage::Bitfield(payload), 4 + msg_len)))
        } else if id == 6 {
            if msg_len == 13 {
                let i = read_be32(src, 5);
                let o = read_be32(src, 9);
                let l = read_be32(src, 13);
                Ok(Some((PeerMessage::Request(i, o, l), 17)))
            } else {
                Err(SessionError::ProtocolViolation)
            }
        } else if id == 7 {
            if msg_len >= 9 {
                let i = read_be32(src, 5);
                let o = read_be32(src, 9);
                let d = copy_range(src, 13, 4 + msg_len);
                Ok(Some((PeerMessage::Piece(i, o, d), 4 + msg_len)))
            } else {
                Err(SessionError::ProtocolViolation)
            }
        } else if id == 8 {
            if msg_len == 13 {
                let i = read_be32(src, 5);
                let o = read_be32(src, 9);
                let l = read_be32(src, 13);
                Ok(Some((PeerMessage::Cancel(i, o, l), 17)))
            } else {
                Err(SessionError::ProtocolViolation)
            }
        } else {
            Err(SessionError::ProtocolViolation)
        }
    }
}

/// Round trip: every well-formed message decodes from its own frame, and the
/// whole frame is consumed.
pub proof fn lemma_message_round_trip(v: MessageView)
    requires
        v.wf(),
    ensures
        spec_message_decode(spec_message_frame(v)) == Ok::<_, SessionError>(
            Some((v, spec_message_frame(v).len() as int)),
        ),
{
    let f = spec_message_frame(v);
    match v {
        MessageView::KeepAlive => {
            lemma_be32_round_trip(0);
            assert(f.subrange(0, 4) =~= spec_be32(0));
        },
        MessageView::Choke => {
            lemma_be32_round_trip(1);
            assert(f.subrange(0, 4) =~= spec_be32(1));
        },
        MessageView::Unchoke => {
            lemma_be32_round_trip(1);
            assert(f.subrange(0, 4) =~= spec_be32(1));
        },
        MessageView::Interested => {
            lemma_be32_round_trip(1);
            assert(f.subrange(0, 4) =~= spec_be32(1));
        },
        MessageView::NotInterested => {
            lemma_be32_round_trip(1);
            assert(f.subrange(0, 4) =~= spec_be32(1));
        },
        MessageView::Have(p) => {
            lemma_be32_round_trip(5);
            lemma_be32_round_trip(p);
            assert(f.subrange(0, 4) =~= spec_be32(5));
            assert(f.subrange(5, 9) =~= spec_be32(p));
        },
        MessageView::Bitfield(b) => {
            let len = (b.len() + 1) as u32;
            lemma_be32_round_trip(len);
            assert(f.subrange(0, 4) =~= spec_be32(len));
            assert(f.subrange(5, 4 + len as int) =~= b);
        },
        MessageView::Request(i, o, l) => {
            lemma_be32_round_trip(13);
            lemma_be32_round_trip(i);
            lemma_be32_round_trip(o);
            lemma_be32_round_trip(l);
            assert(f.subrange(0, 4) =~= spec_be32(13));
            assert(f.subrange(5, 9) =~= spec_be32(i));
            assert(f.subrange(9, 13) =~= spec_be32(o));
            assert(f.subrange(13, 17) =~= spec_be32(l));
        },
        MessageView::Piece(i, o, d) => {
            let len = (d.len() + 9) as u32;
            lemma_be32_round_trip(len);
            lemma_be32_round_trip(i);
            lemma_be32_round_trip(o);
            assert(f.subrange(0, 4) =~= spec_be32(len));
            assert(f.subrange(5, 9) =~= spec_be32(i));
            assert(f.subrange(9, 13) =~= spec_be32(o));
            assert(f.subrange(13, 4 + len as int) =~= d);
        },
        MessageView::Cancel(i, o, l) => {
            lemma_be32_round_trip(13);
            lemma_be32_round_trip(i);
            lemma_be32_round_trip(o);
            lemma_be32_round_trip(l);
            assert(f.subrange(0, 4) =~= spec_be32(13));
            assert(f.subrange(5, 9) =~= spec_be32(i));
            assert(f.subrange(9, 13) =~= spec_be32(o));
            assert(f.subrange(13, 17) =~= spec_be32(l));
        },
    }
    assert(spec_message_decode(f) =~~= Ok::<_, SessionError>(
        Some((v, spec_message_frame(v).len() as int)),
    ));
}

} // verus!
