//! Peer addresses as the tracker advertises them: 6-byte compact records of
//! an IPv4 address followed by a big-endian port.

use vstd::prelude::*;

verus! {

/// One peer's address: four IPv4 octets and a port.
#[derive(Debug, Clone, PartialEq)]
pub struct PeerData {
    pub ip: [u8; 4],
    pub port: u16,
}

impl PeerData {
    /// Parse one compact record: octets first, then the port in network
    /// byte order.
    pub fn from_bytes(bytes: &[u8]) -> (r: Self)
        requires
            bytes@.len() >= 6,
        ensures
            r.ip@ == bytes@.subrange(0, 4),
            r.port == bytes@[4] * 256 + bytes@[5],
    {
        let ip: [u8; 4] = [bytes[0], bytes[1], bytes[2], bytes[3]];
        let port = (bytes[4] as u16) * 256 + (bytes[5] as u16);
        proof {
            assert(ip@ =~= bytes@.subrange(0, 4));
        }
        PeerData { ip, port }
    }
}

/// What a tracker announce yields: the poll interval and the peer list.
#[derive(Debug, Clone, PartialEq)]
pub struct PeersInfo {
    pub interval: u16,
    pub peers: Vec<PeerData>,
}

impl PeersInfo {
    /// Split a compact peer list into its 6-byte records; a trailing
    /// fragment shorter than a record is ignored.
    pub fn from_compact(interval: u16, peers: &[u8]) -> (r: PeersInfo)
        ensures
            r.interval == interval,
            r.peers@.len() == peers@.len() as int / 6,
            forall|i: int|
                0 <= i < r.peers@.len() ==> (#[trigger] r.peers@[i]).ip@ == peers@.subrange(
                    6 * i,
                    6 * i + 4,
                ) && r.peers@[i].port == peers@[6 * i + 4] * 256 + peers@[6 * i + 5],
    {
        let n = peers.len() / 6;
        let mut list: Vec<PeerData> = Vec::new();
        let mut i: usize = 0;
        while i < n
            invariant
                n == peers@.len() as int / 6,
                peers@.len() <= usize::MAX,
                0 <= i <= n,
                list@.len() == i,
                forall|j: int|
                    0 <= j < i ==> (#[trigger] list@[j]).ip@ == peers@.subrange(6 * j, 6 * j + 4)
                        && list@[j].port == peers@[6 * j + 4] * 256 + peers@[6 * j + 5],
            decreases n - i,
        {
            proof {
                assert((i + 1) * 6 <= n * 6 <= peers@.len()) by (nonlinear_arith)
                    requires
                        i < n,
                        n == peers@.len() as int / 6,
                ;
            }
            let rec = vstd::slice::slice_subrange(peers, 6 * i, 6 * i + 6);
            let peer = PeerData::from_bytes(rec);
            proof {
                assert(rec@.subrange(0, 4) =~= peers@.subrange(6 * i, 6 * i + 4));
            }
            list.push(peer);
            i = i + 1;
        }
        PeersInfo { interval, peers: list }
    }
}

} // verus!
