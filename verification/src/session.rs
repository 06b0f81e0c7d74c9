//! The per-peer session engine: the state a session keeps, how each received
//! message changes it, how block requests are pipelined, and when a finished
//! piece is emitted or requeued. The surrounding task performs the connecting,
//! sending and receiving; every decision it acts on is made here.

use vstd::prelude::*;

use crate::bitfield::{spec_set_piece, Bitfield, BitfieldMut};
use crate::error::SessionError;
use crate::handshake::Handshake;
use crate::message::{MessageView, PeerMessage};
use crate::queues::{PieceOfWork, WorkResult};
use crate::util::bytes_eq;

verus! {

/// The largest block one `Request` message may ask for.
pub const MAX_BLOCK_SIZE: usize = 16_384;

/// The most `Request` messages outstanding at once for one piece.
pub const MAX_BACKLOG: usize = 5;

/// Seconds of inactivity after which a session gives up on its peer.
pub const RECV_TIMEOUT_SECS: u64 = 30;

/// The assembly of one piece within one session: how much has been requested
/// and received, how many requests are in flight, and the buffer being
/// filled.
#[derive(Debug, Clone)]
pub struct PieceState {
    pub index: usize,
    pub downloaded: usize,
    pub requested: usize,
    pub backlog: usize,
    pub buf: Vec<u8>,
}

impl PieceState {
    /// Bounds every transition preserves: requests never run past the buffer,
    /// the backlog never exceeds its cap, and index and sizes fit the wire's
    /// `u32` fields (the length also fits a 32-bit address space).
    pub open spec fn inv(&self) -> bool {
        &&& self.requested <= self.buf@.len()
        &&& self.backlog <= MAX_BACKLOG
        &&& self.buf@.len() <= 0x7fff_ffff
        &&& self.index <= u32::MAX
    }

    /// A fresh assembly for piece `index` of `len` bytes, zero-filled.
    pub fn new(index: usize, len: usize) -> (r: Self)
        requires
            index <= u32::MAX,
            len <= 0x7fff_ffff,
        ensures
            r.index == index,
            r.downloaded == 0,
            r.requested == 0,
            r.backlog == 0,
            r.buf@ == Seq::new(len as nat, |i: int| 0u8),
            r.inv(),
    {
        let buf: Vec<u8> = vec![0u8; len];
        proof {
            assert(buf@ =~= Seq::new(len as nat, |i: int| 0u8));
        }
        PieceState { index, downloaded: 0, requested: 0, backlog: 0, buf }
    }
}

/// What a session knows of its peer: whether the peer chokes us, whether we
/// declared interest, and which pieces the peer advertises.
#[derive(Debug, Clone)]
pub struct PeerSessionState {
    pub choked: bool,
    pub interested: bool,
    pub bitfield: Vec<u8>,
}

impl Default for PeerSessionState {
    /// A session starts choked, not interested, with an empty bitfield.
    fn default() -> (r: Self)
        ensures
            r.choked,
            !r.interested,
            r.bitfield@ == Seq::<u8>::empty(),
    {
        PeerSessionState { choked: true, interested: false, bitfield: Vec::new() }
    }
}

/// Accept the peer's handshake exactly when it answers for the torrent we
/// asked about.
pub fn check_handshake(expected_info_hash: &[u8; 20], peer: &Handshake) -> (r: Result<
    (),
    SessionError,
>)
    ensures
        peer.info_hash@ == expected_info_hash@ ==> r == Ok::<(), SessionError>(()),
        peer.info_hash@ != expected_info_hash@ ==> r == Err::<(), SessionError>(
            SessionError::HashMismatch,
        ),
{
    if bytes_eq(peer.info_hash.as_slice(), expected_info_hash.as_slice()) {
        Ok(())
    } else {
        Err(SessionError::HashMismatch)
    }
}

/// The first message after the handshake must be the peer's bitfield; take
/// its bytes, and reject anything else.
pub fn expect_bitfield(msg: PeerMessage) -> (r: Result<Vec<u8>, SessionError>)
    ensures
        (msg@ matches MessageView::Bitfield(b) ==> r matches Ok(v) && v@ == b),
        !(msg@ is Bitfield) ==> r == Err::<Vec<u8>, SessionError>(SessionError::ProtocolViolation),
{
    match msg {
        PeerMessage::Bitfield(b) => Ok(b),
        _ => Err(SessionError::ProtocolViolation),
    }
}

/// Apply one received message to the session and the piece being assembled.
///
/// `Choke`/`Unchoke` flip the choke flag; `Have` sets one bit of the peer's
/// bitfield; `Bitfield` replaces it; `Piece` writes its block into the buffer
/// after every bound has been checked, so no write ever lands outside
/// `[0, buf.len())`; everything else changes nothing.
pub fn handle_message(
    state: &mut PeerSessionState,
    piece: &mut PieceState,
    msg: PeerMessage,
) -> (r: Result<(), SessionError>)
    requires
        old(piece).inv(),
        old(piece).downloaded < old(piece).buf@.len(),
    ensures
        final(piece).inv(),
        final(piece).index == old(piece).index,
        final(piece).requested == old(piece).requested,
        final(piece).buf@.len() == old(piece).buf@.len(),
        match msg@ {
            MessageView::Choke => {
                &&& r == Ok::<(), SessionError>(())
                &&& final(state).choked
                &&& final(state).interested == old(state).interested
                &&& final(state).bitfield@ == old(state).bitfield@
                &&& *final(piece) == *old(piece)
            },
            MessageView::Unchoke => {
                &&& r == Ok::<(), SessionError>(())
                &&& !final(state).choked
                &&& final(state).interested == old(state).interested
                &&& final(state).bitfield@ == old(state).bitfield@
                &&& *final(piece) == *old(piece)
            },
            MessageView::Have(i) => {
                &&& (i as int / 8 < old(state).bitfield@.len() ==> {
                    &&& r == Ok::<(), SessionError>(())
                    &&& final(state).bitfield@ == spec_set_piece(old(state).bitfield@, i as int)
                })
                &&& (i as int / 8 >= old(state).bitfield@.len() ==> {
                    &&& r == Err::<(), SessionError>(SessionError::ProtocolViolation)
                    &&& final(state).bitfield@ == old(state).bitfield@
                })
                &&& final(state).choked == old(state).choked
                &&& final(state).interested == old(state).interested
                &&& *final(piece) == *old(piece)
            },
            MessageView::Bitfield(b) => {
                &&& r == Ok::<(), SessionError>(())
                &&& final(state).bitfield@ == b
                &&& final(state).choked == old(state).choked
                &&& final(state).interested == old(state).interested
                &&& *final(piece) == *old(piece)
            },
            MessageView::Piece(pidx, pbegin, d) => {
                &&& final(state).choked == old(state).choked
                &&& final(state).interested == old(state).interested
                &&& final(state).bitfield@ == old(state).bitfield@
                &&& (if pidx as int != old(piece).index as int {
                    r == Err::<(), SessionError>(SessionError::PieceMismatch) && *final(piece)
                        == *old(piece)
                } else if pbegin as int + d.len() > old(piece).buf@.len() {
                    r == Err::<(), SessionError>(SessionError::PieceOverflow) && *final(piece)
                        == *old(piece)
                } else if old(piece).backlog == 0 {
                    r == Err::<(), SessionError>(SessionError::ProtocolViolation) && *final(piece)
                        == *old(piece)
                } else {
                    &&& r == Ok::<(), SessionError>(())
                    &&& final(piece).buf@ == old(piece).buf@.subrange(0, pbegin as int) + d
                        + old(piece).buf@.subrange(
                        pbegin as int + d.len() as int,
                        old(piece).buf@.len() as int,
                    )
                    &&& (forall|j: int|
                        0 <= j < old(piece).buf@.len() && !(pbegin as int <= j < pbegin as int
                            + d.len()) ==> final(piece).buf@[j] == old(piece).buf@[j])
                    &&& final(piece).downloaded == old(piece).downloaded + d.len()
                    &&& final(piece).backlog == old(piece).backlog - 1
                })
            },
            _ => {
                &&& r == Ok::<(), SessionError>(())
                &&& final(state).choked == old(state).choked
                &&& final(state).interested == old(state).interested
                &&& final(state).bitfield@ == old(state).bitfield@
                &&& *final(piece) == *old(piece)
            },
        },
{
    match msg {
        PeerMessage::Choke => {
            state.choked = true;
            Ok(())
        },
        PeerMessage::Unchoke => {
            state.choked = false;
            Ok(())
        },
        PeerMessage::Have(i) => {
            let idx = i as usize;
            if idx / 8 < state.bitfield.len() {
                state.bitfield.set_piece(idx);
                Ok(())
            } else {
                Err(SessionError::ProtocolViolation)
            }
        },
        PeerMessage::Bitfield(b) => {
            state.bitfield = b;
            Ok(())
        },
        PeerMessage::Piece(pidx, pbegin, data) => {
            let idx = pidx as usize;
            let begin = pbegin as usize;
            if idx != piece.index {
                return Err(SessionError::PieceMismatch);
            }
            if begin > piece.buf.len() {
                return Err(SessionError::PieceOverflow);
            }
            if data.len() > piece.buf.len() - begin {
                return Err(SessionError::PieceOverflow);
            }
            if piece.backlog == 0 {
                return Err(SessionError::ProtocolViolation);
            }
            let len = data.len();
            let mut k: usize = 0;
            while k < len
                invariant
                    len == data@.len(),
                    0 <= k <= len,
                    begin + len <= piece.buf@.len(),
                    piece.buf@.len() <= 0x7fff_ffff,
                    piece.buf@.len() == old(piece).buf@.len(),
                    piece.index == old(piece).index,
                    piece.downloaded == old(piece).downloaded,
                    piece.requested == old(piece).requested,
                    piece.backlog == old(piece).backlog,
                    forall|j: int|
                        0 <= j < piece.buf@.len() && !(begin as int <= j < begin as int + k)
                            ==> piece.buf@[j] == old(piece).buf@[j],
                    forall|j: int|
                        begin as int <= j < begin as int + k ==> piece.buf@[j] == data@[j
                            - begin as int],
                decreases len - k,
            {
                piece.buf.set(begin + k, data[k]);
                k = k + 1;
            }
            piece.downloaded = piece.downloaded + len;
            piece.backlog = piece.backlog - 1;
            proof {
                assert(piece.buf@ =~= old(piece).buf@.subrange(0, begin as int) + data@
                    + old(piece).buf@.subrange(
                    begin as int + data@.len() as int,
                    old(piece).buf@.len() as int,
                ));
            }
            Ok(())
        },
        _ => Ok(()),
    }
}

/// The block requests a session sends next, and where they leave the
/// assembly: while fewer than `MAX_BACKLOG` requests are in flight and bytes
/// remain unrequested, the next `min(MAX_BLOCK_SIZE, remaining)` bytes are
/// requested.
pub open spec fn spec_request_walk(
    index: u32,
    requested: int,
    backlog: int,
    length: int,
) -> (Seq<MessageView>, int, int)
    decreases MAX_BACKLOG - backlog,
{
    if backlog < MAX_BACKLOG && requested < length {
        let block = if length - requested < MAX_BLOCK_SIZE {
            length - requested
        } else {
            MAX_BLOCK_SIZE as int
        };
        let rest = spec_request_walk(index, requested + block, backlog + 1, length);
        (
            seq![MessageView::Request(index, requested as u32, block as u32)] + rest.0,
            rest.1,
            rest.2,
        )
    } else {
        (Seq::empty(), requested, backlog)
    }
}

/// Fill the request pipeline for the piece being assembled. When the peer
/// chokes us nothing is sent; otherwise requests follow `spec_request_walk`,
/// and afterwards either the backlog is full or every byte of the piece has
/// been requested.
pub fn fill_requests(piece: &mut PieceState, choked: bool) -> (msgs: Vec<PeerMessage>)
    requires
        old(piece).inv(),
    ensures
        final(piece).inv(),
        final(piece).index == old(piece).index,
        final(piece).downloaded == old(piece).downloaded,
        final(piece).buf@ == old(piece).buf@,
        final(piece).backlog <= MAX_BACKLOG,
        choked ==> msgs@ == Seq::<PeerMessage>::empty() && *final(piece) == *old(piece),
        !choked ==> {
            let walk = spec_request_walk(
                old(piece).index as u32,
                old(piece).requested as int,
                old(piece).backlog as int,
                old(piece).buf@.len() as int,
            );
            &&& msgs@.map_values(|m: PeerMessage| m@) == walk.0
            &&& final(piece).requested == walk.1
            &&& final(piece).backlog == walk.2
            &&& (final(piece).backlog == MAX_BACKLOG || final(piece).requested == final(piece).buf@.len())
        },
{
    let mut msgs: Vec<PeerMessage> = Vec::new();
    if choked {
        return msgs;
    }
    let ghost index0 = piece.index;
    let ghost requested0 = piece.requested as int;
    let ghost backlog0 = piece.backlog as int;
    let ghost length = piece.buf@.len() as int;
    while piece.backlog < MAX_BACKLOG && piece.requested < piece.buf.len()
        invariant
            piece.inv(),
            piece.index == index0,
            piece.index <= u32::MAX,
            piece.downloaded == old(piece).downloaded,
            piece.buf@ == old(piece).buf@,
            piece.buf@.len() == length,
            spec_request_walk(index0 as u32, requested0, backlog0, length) == (
                msgs@.map_values(|m: PeerMessage| m@) + spec_request_walk(
                    index0 as u32,
                    piece.requested as int,
                    piece.backlog as int,
                    length,
                ).0,
                spec_request_walk(
                    index0 as u32,
                    piece.requested as int,
                    piece.backlog as int,
                    length,
                ).1,
                spec_request_walk(
                    index0 as u32,
                    piece.requested as int,
                    piece.backlog as int,
                    length,
                ).2,
            ),
        decreases MAX_BACKLOG - piece.backlog,
    {
        let mut block_size = MAX_BLOCK_SIZE;
        if piece.buf.len() - piece.requested < block_size {
            block_size = piece.buf.len() - piece.requested;
        }
        let ghost prev_msgs = msgs@;
        msgs.push(
            PeerMessage::Request(piece.index as u32, piece.requested as u32, block_size as u32),
        );
        piece.backlog = piece.backlog + 1;
        piece.requested = piece.requested + block_size;
        proof {
            assert(msgs@.map_values(|m: PeerMessage| m@) =~= prev_msgs.map_values(
                |m: PeerMessage| m@,
            ) + seq![
                MessageView::Request(
                    index0 as u32,
                    (piece.requested - block_size) as u32,
                    block_size as u32,
                ),
            ]);
            assert(spec_request_walk(index0 as u32, requested0, backlog0, length).0
                =~= msgs@.map_values(|m: PeerMessage| m@) + spec_request_walk(
                index0 as u32,
                piece.requested as int,
                piece.backlog as int,
                length,
            ).0);
        }
    }
    msgs
}

/// Where a finished attempt goes: emitted when the buffer verifies against
/// the descriptor, requeued otherwise.
#[derive(Debug, Clone, PartialEq)]
pub enum PieceOutcome {
    /// The buffer verified: this result may reach the sink.
    Emit(WorkResult),
    /// The buffer failed verification: the descriptor goes back on the queue.
    Requeue(PieceOfWork),
}

/// Decide the fate of a completed download attempt. Only a buffer whose
/// SHA-1 digest and length match the descriptor is ever emitted.
pub fn assess_piece(work: PieceOfWork, bytes: Vec<u8>) -> (r: PieceOutcome)
    ensures
        work.spec_verified(bytes@) ==> (r matches PieceOutcome::Emit(res) && res.idx == work.idx
            && res.bytes@ == bytes@),
        !work.spec_verified(bytes@) ==> (r matches PieceOutcome::Requeue(w) && w == work),
{
    if work.verify_buf(bytes.as_slice()) {
        PieceOutcome::Emit(WorkResult { idx: work.idx, bytes })
    } else {
        PieceOutcome::Requeue(work)
    }
}

/// Whether the peer advertises the piece a descriptor names; a session pops
/// a piece, and requeues it untouched when its peer cannot serve it.
pub fn wants_piece(state: &PeerSessionState, work: &PieceOfWork) -> (r: bool)
    ensures
        r == crate::bitfield::spec_has_piece(state.bitfield@, work.idx as int),
{
    state.bitfield.has_piece(work.idx)
}

} // verus!
