//! A verified core for a BitTorrent download client: the wire codecs for the
//! handshake and message phases, MSB-first bitfield access, piece descriptors
//! with SHA-1 integrity checking, and the per-peer session state machine that
//! pipelines block requests and assembles verified pieces.

pub mod bitfield;
pub mod error;
pub mod handshake;
pub mod message;
pub mod peer;
pub mod queues;
pub mod torrent_file;
pub mod session;
mod util;
