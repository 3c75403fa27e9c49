use torrent_core::bitfield::Bitfield;
use torrent_core::download::DownloadPlan;
use torrent_core::handshake::Handshake;
use torrent_core::message::PeerMessage;
use torrent_core::piece::TorrentFile;
use torrent_core::session::{PeerState, PieceDownload};

fn sha1_of_four(i: u8) -> Vec<u8> {
    match i {
        0 => vec![144, 105, 202, 120, 231, 69, 10, 40, 81, 115, 67, 27, 62, 82, 197, 194, 82, 153, 228, 115],
        1 => vec![169, 55, 85, 248, 39, 59, 14, 141, 196, 176, 236, 193, 88, 229, 133, 49, 25, 162, 75, 240],
        _ => vec![50, 40, 98, 96, 70, 1, 165, 161, 127, 138, 219, 249, 110, 49, 139, 242, 173, 236, 248, 114],
    }
}

/// A peer that has every piece and answers a request `(i, 0, 4)` with `[i; 4]`.
fn mock_peer_answer(request_frame: &[u8]) -> Vec<u8> {
    let (msg, used) = PeerMessage::decode_frame(request_frame).unwrap();
    assert_eq!(used, request_frame.len());
    match msg {
        Some(PeerMessage::Request { index, begin, length }) => {
            assert_eq!((begin, length), (0, 4));
            PeerMessage::Piece { index, begin, block: vec![index as u8; 4] }.to_bytes()
        }
        other => panic!("mock peer got {:?}", other),
    }
}

fn read_one(bytes: &[u8]) -> PeerMessage {
    let (msg, used) = PeerMessage::decode_frame(bytes).unwrap();
    assert_eq!(used, bytes.len());
    msg.unwrap()
}

#[test]
fn end_to_end_with_mock_peer() {
    let torrent = TorrentFile {
        announce: Some("http://t.example/announce".to_string()),
        info_hash: vec![0x11; 20],
        piece_hashes: (0..3u8).map(sha1_of_four).collect(),
        piece_length: 4,
        length: 12,
        name: "out.bin".to_string(),
    };
    let mut plan = DownloadPlan::new(&torrent).unwrap();

    let ours = Handshake::new(&plan.info_hash, &[0x22; 20]);
    let reply = Handshake::new(&plan.info_hash, &[0x33; 20]).get_bytes();
    let mut theirs = Handshake::new(&[0; 20], &[0; 20]);
    theirs.set_bytes(&reply);
    assert!(theirs.accepts(&plan.info_hash));
    assert_eq!(ours.get_bytes()[28..48], reply[28..48]);

    let mut state = PeerState::new(3);
    let _interested = PeerMessage::Interested.to_bytes();
    state.sent_interested();
    let incoming = vec![
        PeerMessage::Bitfield { bitfield: Bitfield::new(vec![0b11100000]) }.to_bytes(),
        PeerMessage::Unchoke.to_bytes(),
    ];
    for frame in incoming {
        state.receive(read_one(&frame));
    }
    assert!(state.is_ready());

    let mut file = vec![0xEEu8; plan.layout.total_size()];
    let mut progress = Vec::new();
    for i in state.bitfield.pieces() {
        let piece = plan.pool.claim(i).unwrap();
        let mut attempt = PieceDownload::new(piece);
        while let Some(req) = attempt.pending_request() {
            let request = PeerMessage::Request {
                index: req.index,
                begin: req.begin,
                length: req.length,
            };
            let answer = mock_peer_answer(&request.to_bytes());
            let block = state.receive(read_one(&answer)).unwrap();
            assert!(attempt.accept(block));
        }
        let data = attempt.finish().unwrap();
        assert!(plan.pool.complete(data.piece_idx));
        let w = plan.layout.plan(data.piece_idx, data.data.len()).unwrap();
        file[w.offset..w.offset + w.len].copy_from_slice(&data.data[..w.len]);
        progress.push(data.piece_idx);
    }

    assert!(plan.pool.is_finished());
    assert_eq!(file, vec![0, 0, 0, 0, 1, 1, 1, 1, 2, 2, 2, 2]);
    progress.sort();
    assert_eq!(progress, vec![0, 1, 2]);
}

#[test]
fn failed_attempt_returns_piece_to_pool() {
    let torrent = TorrentFile {
        announce: None,
        info_hash: vec![0x11; 20],
        piece_hashes: (0..3u8).map(sha1_of_four).collect(),
        piece_length: 4,
        length: 12,
        name: "out.bin".to_string(),
    };
    let mut plan = DownloadPlan::new(&torrent).unwrap();
    let piece = plan.pool.claim(2).unwrap();
    let mut attempt = PieceDownload::new(piece);
    let req = attempt.pending_request().unwrap();
    assert!(attempt.accept(torrent_core::session::Block {
        index: req.index,
        begin: req.begin,
        data: vec![9, 9, 9, 9],
    }));
    assert!(attempt.finish().is_err());
    assert!(plan.pool.claim(2).is_none());
    assert!(plan.pool.release(piece));
    assert!(plan.pool.claim(2).is_some());
}
