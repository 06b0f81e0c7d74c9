use torrent::peer::{PeerData, PeersInfo};
use torrent::torrent_file::{Info, Torrent, TorrentFile};

fn single_file_info(piece_count: usize, piece_length: i64, length: i64) -> Info {
    let mut pieces = Vec::new();
    for i in 0..piece_count {
        pieces.extend_from_slice(&[i as u8; 20]);
    }
    Info {
        name: String::from("payload.bin"),
        pieces,
        piece_length,
        md5sum: None,
        length: Some(length),
        files: None,
        private: None,
        path: None,
        root_hash: None,
    }
}

fn torrent_with(info: Info) -> Torrent {
    Torrent {
        file: TorrentFile {
            info,
            announce: Some(String::from("http://tracker.example/announce")),
            nodes: None,
            encoding: None,
            httpseeds: None,
            announce_list: None,
            creation_date: None,
            comment: None,
            created_by: None,
        },
        info_hash: [0x11; 20],
    }
}

#[test]
fn last_piece_takes_the_remainder() {
    let torrent = torrent_with(single_file_info(4, 300, 1000));
    let descriptors = torrent.piece_descriptors().unwrap();

    let summary: Vec<(usize, usize)> = descriptors.iter().map(|w| (w.idx, w.length)).collect();
    assert_eq!(summary, vec![(0, 300), (1, 300), (2, 300), (3, 100)]);
}

#[test]
fn descriptors_carry_their_piece_hash() {
    let torrent = torrent_with(single_file_info(3, 100, 300));
    let descriptors = torrent.piece_descriptors().unwrap();
    assert_eq!(descriptors.len(), 3);
    for (i, w) in descriptors.iter().enumerate() {
        assert_eq!(w.hash, [i as u8; 20]);
    }
}

#[test]
fn piece_bounds_clamp_to_the_total_length() {
    let info = single_file_info(4, 300, 1000);
    assert_eq!(info.piece_bounds(0), (0, 300));
    assert_eq!(info.piece_bounds(3), (900, 1000));
    assert_eq!(info.piece_length(0), 300);
    assert_eq!(info.piece_length(3), 100);
}

#[test]
fn hash_pieces_splits_twenty_byte_chunks() {
    let info = single_file_info(3, 100, 300);
    let hashes = info.hash_pieces();
    assert_eq!(hashes.len(), 3);
    assert_eq!(hashes[0], [0u8; 20]);
    assert_eq!(hashes[2], [2u8; 20]);
}

#[test]
fn inconsistent_metainfo_yields_no_descriptors() {
    // Five hashes for a three-piece payload.
    let torrent = torrent_with(single_file_info(5, 300, 1000));
    assert_eq!(torrent.piece_descriptors(), None);

    // A piece length of zero.
    let torrent = torrent_with(single_file_info(4, 0, 1000));
    assert_eq!(torrent.piece_descriptors(), None);

    // No single-file length.
    let mut info = single_file_info(4, 300, 1000);
    info.length = None;
    let torrent = torrent_with(info);
    assert_eq!(torrent.piece_descriptors(), None);
}

#[test]
fn peer_data_parses_a_compact_record() {
    let record = [192, 168, 0, 1, 0x1a, 0xe1];
    let peer = PeerData::from_bytes(&record);
    assert_eq!(peer.ip, [192, 168, 0, 1]);
    assert_eq!(peer.port, 6881);
}

#[test]
fn compact_peer_list_splits_into_records() {
    let bytes = [10, 0, 0, 1, 0x00, 0x50, 10, 0, 0, 2, 0x1a, 0xe1, 0xff];
    let info = PeersInfo::from_compact(900, &bytes);
    assert_eq!(info.interval, 900);
    assert_eq!(info.peers.len(), 2);
    assert_eq!(info.peers[0].ip, [10, 0, 0, 1]);
    assert_eq!(info.peers[0].port, 80);
    assert_eq!(info.peers[1].ip, [10, 0, 0, 2]);
    assert_eq!(info.peers[1].port, 6881);
}
