use torrent_core::download::{DownloadPlan, MetainfoError};
use torrent_core::ids::IdError;
use torrent_core::piece::{pieces_from_torrent, Piece, TorrentFile};
use torrent_core::pool::PiecePool;
use torrent_core::writer::{FileLayout, WritePlan, WriterError};

fn torrent(piece_length: usize, length: usize, count: usize) -> TorrentFile {
    TorrentFile {
        announce: Some("http://t.example/announce".to_string()),
        info_hash: vec![0xAA; 20],
        piece_hashes: (0..count).map(|i| vec![i as u8; 20]).collect(),
        piece_length,
        length,
        name: "out.bin".to_string(),
    }
}

#[test]
fn piece_lengths_last_piece_short() {
    let t = torrent(4, 10, 3);
    let pieces = pieces_from_torrent(&t).unwrap();
    assert_eq!(pieces.len(), 3);
    assert_eq!(pieces[0].length(), 4);
    assert_eq!(pieces[1].length(), 4);
    assert_eq!(pieces[2].length(), 2);
    assert_eq!(pieces[2].index(), 2);
    assert_eq!(pieces[2].hash(), [2u8; 20]);
}

#[test]
fn piece_lengths_exact_multiple() {
    let t = torrent(4, 12, 3);
    let last = Piece::new(2, &t).unwrap();
    assert_eq!(last.length(), 4);
}

#[test]
fn piece_with_bad_hash() {
    let mut t = torrent(4, 12, 3);
    t.piece_hashes[1] = vec![0; 5];
    assert_eq!(Piece::new(1, &t).err(), Some(IdError::BadLength(5)));
    assert_eq!(pieces_from_torrent(&t).err(), Some(IdError::BadLength(5)));
}

#[test]
fn pool_claim_is_exclusive() {
    let t = torrent(4, 12, 3);
    let mut pool = PiecePool::new(&t).unwrap();
    let p = pool.claim(1).unwrap();
    assert_eq!(p.index(), 1);
    assert!(pool.claim(1).is_none());
    assert!(pool.claim(3).is_none());
    assert!(pool.release(p));
    let again = pool.claim(1).unwrap();
    assert_eq!(again.index(), 1);
    assert!(pool.complete(1));
    assert!(!pool.complete(1));
    assert!(!pool.release(again));
    assert!(pool.claim(1).is_none());
}

#[test]
fn pool_finishes_when_all_done() {
    let t = torrent(4, 12, 3);
    let mut pool = PiecePool::new(&t).unwrap();
    for i in [2usize, 0, 1] {
        assert!(!pool.is_finished());
        let p = pool.claim(i).unwrap();
        assert!(pool.complete(p.index()));
    }
    assert_eq!(pool.downloaded(), 3);
    assert!(pool.is_finished());
    assert!(!pool.complete(0));
}

#[test]
fn pool_of_empty_torrent_is_finished() {
    let pool = PiecePool::new(&torrent(4, 0, 0)).unwrap();
    assert!(pool.is_finished());
}

#[test]
fn plan_rejects_bad_metainfo() {
    assert_eq!(DownloadPlan::new(&torrent(0, 12, 3)).err(), Some(MetainfoError::ZeroPieceLength));
    let mut bad_piece = torrent(4, 12, 3);
    bad_piece.piece_hashes[0] = vec![1; 21];
    assert_eq!(DownloadPlan::new(&bad_piece).err(), Some(MetainfoError::BadPieceHash(21)));
    let mut bad_info = torrent(4, 12, 3);
    bad_info.info_hash = vec![1; 3];
    assert_eq!(DownloadPlan::new(&bad_info).err(), Some(MetainfoError::BadInfoHash(3)));
    assert_eq!(DownloadPlan::new(&torrent(4, 12, 4)).err(), Some(MetainfoError::Inconsistent));
    let plan = DownloadPlan::new(&torrent(4, 12, 3)).unwrap();
    assert_eq!(plan.info_hash, [0xAA; 20]);
    assert_eq!(plan.layout.total_pieces(), 3);
    assert_eq!(plan.layout.total_size(), 12);
}

#[test]
fn layout_checks_agreement() {
    assert!(FileLayout::new(3, 4, 10).is_some());
    assert!(FileLayout::new(3, 4, 12).is_some());
    assert!(FileLayout::new(4, 4, 12).is_none());
    assert!(FileLayout::new(2, 4, 10).is_none());
    assert!(FileLayout::new(1, 0, 0).is_none());
    assert!(FileLayout::new(0, 4, 0).is_some());
}

#[test]
fn layout_plans_writes() {
    let layout = FileLayout::new(3, 4, 10).unwrap();
    assert_eq!(layout.plan(0, 4), Ok(WritePlan { offset: 0, len: 4 }));
    assert_eq!(layout.plan(1, 4), Ok(WritePlan { offset: 4, len: 4 }));
    assert_eq!(layout.plan(2, 4), Ok(WritePlan { offset: 8, len: 2 }));
    assert_eq!(layout.plan(1, 3), Ok(WritePlan { offset: 4, len: 3 }));
    assert_eq!(layout.plan(3, 4), Err(WriterError::InvalidIndex(3)));
}
