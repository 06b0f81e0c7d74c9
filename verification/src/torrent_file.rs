//! The metainfo a torrent download works from, reduced to plain values, and
//! the derivation of one piece descriptor per advertised SHA-1 hash.

use vstd::arithmetic::div_mod::lemma_fundamental_div_mod;
use vstd::arithmetic::mul::lemma_mul_inequality;
use vstd::prelude::*;

use crate::queues::PieceOfWork;
use crate::util::to_array;

verus! {

/// A DHT node as the metainfo lists it: host and port.
#[derive(Debug, Clone, PartialEq)]
pub struct Node(pub String, pub i64);

/// One file of a multi-file torrent.
#[derive(Debug, Clone, PartialEq)]
pub struct File {
    pub path: Vec<String>,
    pub length: i64,
    pub md5sum: Option<String>,
}

/// The `info` dictionary: piece hashes, piece size, and payload layout.
#[derive(Debug, Clone, PartialEq)]
pub struct Info {
    pub name: String,
    /// Concatenation of 20-byte SHA-1 digests, one per piece.
    pub pieces: Vec<u8>,
    pub piece_length: i64,
    pub md5sum: Option<String>,
    pub length: Option<i64>,
    pub files: Option<Vec<File>>,
    pub private: Option<u8>,
    pub path: Option<Vec<String>>,
    pub root_hash: Option<String>,
}

/// The whole metainfo file.
#[derive(Debug, Clone, PartialEq)]
pub struct TorrentFile {
    pub info: Info,
    pub announce: Option<String>,
    pub nodes: Option<Vec<Node>>,
    pub encoding: Option<String>,
    pub httpseeds: Option<Vec<String>>,
    pub announce_list: Option<Vec<Vec<String>>>,
    pub creation_date: Option<i64>,
    pub comment: Option<String>,
    pub created_by: Option<String>,
}

/// A torrent ready to download: its metainfo and the SHA-1 of the bencoded
/// `info` dictionary, as sent in every handshake.
#[derive(Debug, Clone, PartialEq)]
pub struct Torrent {
    pub file: TorrentFile,
    pub info_hash: [u8; 20],
}

/// The length of piece `index` when `total` bytes are cut into pieces of
/// `piece_length`: always `piece_length`, except the final piece which takes
/// what remains.
pub open spec fn spec_piece_len(total: int, piece_length: int, index: int) -> int {
    if total - index * piece_length < piece_length {
        total - index * piece_length
    } else {
        piece_length
    }
}

impl Info {
    /// The single-file payload size; meaningful when `length` is present.
    pub open spec fn spec_total(&self) -> int {
        match self.length {
            Some(l) => l as int,
            None => 0,
        }
    }

    /// A single-file torrent whose sizes the piece arithmetic can work with:
    /// a positive piece length the wire's `u32` fields can address, and a
    /// total length that fits the platform's `usize`.
    pub open spec fn wf(&self) -> bool {
        &&& 0 < self.piece_length <= 0x7fff_ffff
        &&& self.length matches Some(l) && 0 <= l <= usize::MAX
    }

    /// How many pieces the hash list advertises.
    pub open spec fn spec_piece_count(&self) -> int {
        self.pieces@.len() as int / 20
    }

    /// The advertised piece hashes, one 20-byte digest each; a trailing
    /// fragment shorter than 20 bytes is ignored.
    pub fn hash_pieces(&self) -> (r: Vec<[u8; 20]>)
        ensures
            r@.len() == self.spec_piece_count(),
            forall|i: int|
                0 <= i < r@.len() ==> r@[i]@ == self.pieces@.subrange(20 * i, 20 * i + 20),
    {
        let n = self.pieces.len() / 20;
        let mut r: Vec<[u8; 20]> = Vec::new();
        let mut i: usize = 0;
        while i < n
            invariant
                n == self.pieces@.len() as int / 20,
                self.pieces@.len() <= usize::MAX,
                0 <= i <= n,
                r@.len() == i,
                forall|j: int| 0 <= j < i ==> r@[j]@ == self.pieces@.subrange(20 * j, 20 * j + 20),
            decreases n - i,
        {
            proof {
                lemma_fundamental_div_mod(self.pieces@.len() as int, 20);
                lemma_mul_inequality(i + 1, n as int, 20);
            }
            let h: [u8; 20] = to_array(
                vstd::slice::slice_subrange(self.pieces.as_slice(), 20 * i, 20 * i + 20),
            );
            r.push(h);
            i = i + 1;
        }
        r
    }

    /// The byte range `[begin, end)` of piece `index` within the payload:
    /// `begin = index * piece_length`, `end` clamped to the total length.
    pub fn piece_bounds(&self, index: usize) -> (r: (usize, usize))
        requires
            self.wf(),
            index * self.piece_length <= self.spec_total(),
        ensures
            r.0 == index * self.piece_length,
            r.1 == r.0 + spec_piece_len(self.spec_total(), self.piece_length as int, index as int),
            r.0 <= r.1 <= self.spec_total(),
    {
        let length = self.piece_length as usize;
        let total = match self.length {
            Some(l) => l as usize,
            None => 0,  // unreachable: `wf` demands a single-file length
        };
        let begin = index * length;
        let end = if total - begin < length {
            total
        } else {
            begin + length
        };
        (begin, end)
    }

    /// The length of piece `index`: the piece length for every piece but the
    /// last, which takes the remaining bytes.
    pub fn piece_length(&self, index: usize) -> (r: usize)
        requires
            self.wf(),
            index * self.piece_length <= self.spec_total(),
        ensures
            r == spec_piece_len(self.spec_total(), self.piece_length as int, index as int),
    {
        let (begin, end) = self.piece_bounds(index);
        end - begin
    }
}

impl Info {
    /// The hash list, the piece length and the total length agree: the hash
    /// count is exactly the number of pieces `total / piece_length` rounded
    /// up, there is at least one byte, and every piece index fits `u32`.
    pub open spec fn descriptors_consistent(&self) -> bool {
        &&& self.wf()
        &&& self.spec_total() > 0
        &&& self.spec_piece_count() == (self.spec_total() - 1) / (self.piece_length as int) + 1
        &&& self.spec_piece_count() <= u32::MAX
    }
}

impl Torrent {
    /// One descriptor per advertised piece, in index order: piece `i` takes
    /// bytes `[i * piece_length, ..)` of the payload, the last piece taking
    /// what remains, each carrying its 20-byte hash. `None` when the
    /// metainfo's sizes and hash count do not agree.
    pub fn piece_descriptors(&self) -> (r: Option<Vec<PieceOfWork>>)
        ensures
            r is Some <==> self.file.info.descriptors_consistent(),
            r matches Some(v) ==> {
                let total = self.file.info.spec_total();
                let pl = self.file.info.piece_length as int;
                let count = self.file.info.spec_piece_count();
                &&& v@.len() == count
                &&& forall|i: int|
                    0 <= i < count ==> (#[trigger] v@[i]).idx == i && v@[i].hash@
                        == self.file.info.pieces@.subrange(20 * i, 20 * i + 20) && v@[i].length
                        == spec_piece_len(total, pl, i) && v@[i].wf()
                &&& forall|i: int| 0 <= i < count - 1 ==> (#[trigger] v@[i]).length == pl
                &&& v@[count - 1].length == total - (count - 1) * pl
            },
    {
        let pl_i = self.file.info.piece_length;
        if pl_i <= 0 || pl_i > 0x7fff_ffff {
            return None;
        }
        let l_i = match self.file.info.length {
            Some(l) => l,
            None => {
                return None;
            },
        };
        if l_i <= 0 {
            return None;
        }
        if l_i as u64 > usize::MAX as u64 {
            return None;
        }
        let total = l_i as usize;
        let pl = pl_i as usize;
        let count = self.file.info.pieces.len() / 20;
        if count != (total - 1) / pl + 1 {
            return None;
        }
        if count as u64 > u32::MAX as u64 {
            return None;
        }
        proof {
            // Every index below `count` starts strictly inside the payload.
            assert((count - 1) * pl <= total - 1) by (nonlinear_arith)
                requires
                    0 < pl,
                    0 < total,
                    count == (total - 1) as int / pl as int + 1,
            ;
        }
        let hashes = self.file.info.hash_pieces();
        let mut v: Vec<PieceOfWork> = Vec::new();
        let mut i: usize = 0;
        while i < count
            invariant
                self.file.info.wf(),
                0 < total == self.file.info.spec_total() <= usize::MAX,
                0 < pl == self.file.info.piece_length <= 0x7fff_ffff,
                count == self.file.info.spec_piece_count() <= u32::MAX,
                count == (total - 1) as int / pl as int + 1,
                (count - 1) * pl <= total - 1,
                hashes@.len() == count,
                forall|j: int|
                    0 <= j < count ==> hashes@[j]@ == self.file.info.pieces@.subrange(20 * j, 20 * j + 20),
                0 <= i <= count,
                v@.len() == i,
                forall|j: int|
                    0 <= j < i ==> (#[trigger] v@[j]).idx == j && v@[j].hash@
                        == self.file.info.pieces@.subrange(20 * j, 20 * j + 20) && v@[j].length
                        == spec_piece_len(total as int, pl as int, j) && v@[j].wf(),
            decreases count - i,
        {
            proof {
                lemma_mul_inequality(i as int, count - 1, pl as int);
            }
            let begin = i * pl;
            let length = if total - begin < pl {
                total - begin
            } else {
                pl
            };
            v.push(PieceOfWork { idx: i, hash: hashes[i], length });
            i = i + 1;
        }
        proof {
            // Pieces before the last end before the payload does, so each
            // takes a whole `pl` bytes; the last takes the remainder.
            assert forall|j: int| 0 <= j < count - 1 implies (#[trigger] v@[j]).length
                == pl as int by {
                lemma_mul_inequality(j + 1, count - 1, pl as int);
                assert((j + 1) * pl == j * pl + pl) by (nonlinear_arith);
            }
            assert(total <= count as int * pl) by (nonlinear_arith)
                requires
                    0 < pl,
                    0 < total,
                    count == (total - 1) as int / pl as int + 1,
            ;
            assert(count as int * pl == (count - 1) * pl + pl) by (nonlinear_arith);
            assert(v@[count - 1].length == total - (count - 1) * pl);
        }
        Some(v)
    }
}

} // verus!
