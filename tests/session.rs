use torrent_core::bitfield::Bitfield;
use torrent_core::message::PeerMessage;
use torrent_core::piece::{Piece, TorrentFile};
use torrent_core::session::{
    block_requests, digest_matches, should_rescan, Block, BlockRequest, DownloadError, PeerState,
    PieceDownload, BLOCK_SIZE,
};

fn sha1_of_four(i: u8) -> Vec<u8> {
    match i {
        0 => vec![144, 105, 202, 120, 231, 69, 10, 40, 81, 115, 67, 27, 62, 82, 197, 194, 82, 153, 228, 115],
        1 => vec![169, 55, 85, 248, 39, 59, 14, 141, 196, 176, 236, 193, 88, 229, 133, 49, 25, 162, 75, 240],
        _ => vec![50, 40, 98, 96, 70, 1, 165, 161, 127, 138, 219, 249, 110, 49, 139, 242, 173, 236, 248, 114],
    }
}

fn piece(i: usize) -> Piece {
    let t = TorrentFile {
        announce: None,
        info_hash: vec![0; 20],
        piece_hashes: (0..3u8).map(sha1_of_four).collect(),
        piece_length: 4,
        length: 12,
        name: "x".to_string(),
    };
    Piece::new(i, &t).unwrap()
}

#[test]
fn peer_state_starts_choked() {
    let s = PeerState::new(10);
    assert!(s.am_choking && !s.am_interested && s.peer_choking && !s.peer_interested);
    assert!(!s.is_ready());
    assert_eq!(s.bitfield.as_bytes(), &vec![0, 0]);
}

#[test]
fn peer_state_receive_effects() {
    let mut s = PeerState::new(16);
    assert!(s.receive(PeerMessage::Unchoke).is_none());
    assert!(!s.peer_choking);
    assert!(!s.is_ready());
    s.receive(PeerMessage::Have { piece_index: 9 });
    assert!(s.bitfield.has_piece(9));
    assert!(s.is_ready());
    s.receive(PeerMessage::Choke);
    assert!(s.peer_choking);
    assert!(s.am_choking);
    s.receive(PeerMessage::Interested);
    assert!(s.peer_interested);
    s.receive(PeerMessage::NotInterested);
    assert!(!s.peer_interested);
    s.receive(PeerMessage::Bitfield { bitfield: Bitfield::new(vec![0x80, 0x01]) });
    assert_eq!(s.bitfield.pieces(), vec![0, 15]);
    assert!(s.receive(PeerMessage::Request { index: 0, begin: 0, length: 1 }).is_none());
    assert!(s.receive(PeerMessage::Cancel { index: 0, begin: 0, length: 1 }).is_none());
    let b = s.receive(PeerMessage::Piece { index: 3, begin: 8, block: vec![1, 2] }).unwrap();
    assert_eq!((b.index, b.begin, b.data), (3, 8, vec![1, 2]));
    s.sent_interested();
    assert!(s.am_interested);
}

#[test]
fn bitfield_then_unchoke_makes_ready() {
    let mut s = PeerState::new(8);
    s.receive(PeerMessage::Bitfield { bitfield: Bitfield::new(vec![0xFF]) });
    assert!(!s.is_ready());
    s.receive(PeerMessage::Unchoke);
    assert!(s.is_ready());
}

#[test]
fn block_requests_cover_piece() {
    let r = block_requests(5, 40000);
    assert_eq!(
        r,
        vec![
            BlockRequest { index: 5, begin: 0, length: 16384 },
            BlockRequest { index: 5, begin: 16384, length: 16384 },
            BlockRequest { index: 5, begin: 32768, length: 7232 },
        ]
    );
    assert_eq!(block_requests(1, 4), vec![BlockRequest { index: 1, begin: 0, length: 4 }]);
    assert_eq!(block_requests(1, BLOCK_SIZE as u32).len(), 1);
    assert!(block_requests(1, 0).is_empty());
}

#[test]
fn piece_download_accepts_awaited_block_only() {
    let mut d = PieceDownload::new(piece(1));
    assert_eq!(d.pending_request(), Some(BlockRequest { index: 1, begin: 0, length: 4 }));
    assert!(!d.accept(Block { index: 0, begin: 0, data: vec![1, 1, 1, 1] }));
    assert!(!d.accept(Block { index: 1, begin: 4, data: vec![1, 1, 1, 1] }));
    assert!(!d.is_complete());
    assert!(d.accept(Block { index: 1, begin: 0, data: vec![1, 1, 1, 1] }));
    assert!(d.is_complete());
    assert_eq!(d.pending_request(), None);
    let data = d.finish().unwrap();
    assert_eq!(data.piece_idx, 1);
    assert_eq!(data.data, vec![1, 1, 1, 1]);
}

#[test]
fn piece_download_hash_mismatch() {
    let mut d = PieceDownload::new(piece(1));
    assert!(d.accept(Block { index: 1, begin: 0, data: vec![1, 1, 1, 2] }));
    assert_eq!(d.finish().err(), Some(DownloadError::HashMismatch));
}

#[test]
fn piece_download_incomplete() {
    let d = PieceDownload::new(piece(0));
    assert_eq!(d.finish().err(), Some(DownloadError::Incomplete));
}

#[test]
fn digest_comparison() {
    let a = [3u8; 20];
    let mut b = [3u8; 20];
    assert!(digest_matches(&a, &b));
    b[19] = 4;
    assert!(!digest_matches(&a, &b));
}

#[test]
fn rescan_after_news_or_five_quiet_windows() {
    assert!(should_rescan(1, true));
    assert!(!should_rescan(1, false));
    assert!(!should_rescan(4, false));
    assert!(should_rescan(5, false));
}
