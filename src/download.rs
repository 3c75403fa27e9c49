use vstd::prelude::*;

use crate::ids::{IdError, InfoHash};
use crate::piece::{piece_spec, TorrentFile};
use crate::pool::{PiecePool, PieceStatus};
use crate::writer::{layout_ok, FileLayout};

verus! {

/// Why a metainfo cannot be downloaded.
#[derive(Debug, Clone, Copy, PartialEq, Eq, Structural)]
pub enum MetainfoError {
    /// The piece length is zero.
    ZeroPieceLength,
    /// A piece hash has this length instead of 20.
    BadPieceHash(usize),
    /// The info-hash has this length instead of 20.
    BadInfoHash(usize),
    /// The number of pieces does not fit the piece length and file length.
    Inconsistent,
}

/// Whether every piece hash of `torrent` is 20 bytes long.
pub open spec fn piece_hashes_ok(torrent: &TorrentFile) -> bool {
    forall|i: int|
        0 <= i < torrent.piece_hashes@.len() ==> (#[trigger] torrent.piece_hashes@[i])@.len() == 20
}

/// Everything a download shares among its workers and its writer: the
/// torrent's identity, the pool of pieces, and the layout of the file.
pub struct DownloadPlan {
    pub info_hash: [u8; 20],
    pub pool: PiecePool,
    pub layout: FileLayout,
}

impl DownloadPlan {
    /// The starting state of a download of `torrent`: every piece available.
    pub fn new(torrent: &TorrentFile) -> (r: Result<Self, MetainfoError>)
        ensures
            (r is Ok) <==> (torrent.piece_length > 0 && piece_hashes_ok(torrent)
                && torrent.info_hash@.len() == 20 && layout_ok(
                torrent.piece_hashes@.len() as int,
                torrent.piece_length as int,
                torrent.length as int,
            )),
            torrent.piece_length == 0 <==> r == Err::<Self, MetainfoError>(
                MetainfoError::ZeroPieceLength,
            ),
            r matches Err(MetainfoError::BadPieceHash(n)) ==> exists|i: int|
                0 <= i < torrent.piece_hashes@.len() && (forall|j: int|
                    0 <= j < i ==> (#[trigger] torrent.piece_hashes@[j])@.len() == 20)
                    && torrent.piece_hashes@[i]@.len() != 20 && n == torrent.piece_hashes@[i]@.len() as usize,
            r matches Err(MetainfoError::BadInfoHash(n)) ==> piece_hashes_ok(torrent) && n
                == torrent.info_hash@.len() && n != 20,
            r matches Err(MetainfoError::Inconsistent) ==> piece_hashes_ok(torrent)
                && torrent.info_hash@.len() == 20,
            r matches Ok(p) ==> {
                &&& p.info_hash@ == torrent.info_hash@
                &&& p.pool.wf()
                &&& p.pool@.status.len() == torrent.piece_hashes@.len()
                &&& forall|i: int|
                    0 <= i < p.pool@.status.len() ==> p.pool@.status[i] == PieceStatus::Available
                &&& forall|i: int|
                    0 <= i < p.pool@.status.len() ==> p.pool@.available[i as usize] == piece_spec(
                        i,
                        torrent,
                    )
                &&& p.layout.spec_total_pieces() == torrent.piece_hashes@.len()
                &&& p.layout.spec_piece_length() == torrent.piece_length
                &&& p.layout.spec_total_size() == torrent.length
            },
    {
        if torrent.piece_length == 0 {
            return Err(MetainfoError::ZeroPieceLength);
        }
        let pool = match PiecePool::new(torrent) {
            Ok(p) => p,
            Err(IdError::BadLength(n)) => {
                return Err(MetainfoError::BadPieceHash(n));
            },
        };
        let hash_len = torrent.info_hash.len();
        assert(hash_len == torrent.info_hash@.len());
        let info_hash = match InfoHash::new(crate::ids::copy_bytes(&torrent.info_hash)) {
            Ok(h) => h.to_arr(),
            Err(IdError::BadLength(n)) => {
                return Err(MetainfoError::BadInfoHash(n));
            },
        };
        let layout = match FileLayout::new(
            torrent.piece_hashes.len(),
            torrent.piece_length,
            torrent.length,
        ) {
            Some(l) => l,
            None => {
                return Err(MetainfoError::Inconsistent);
            },
        };
        Ok(DownloadPlan { info_hash, pool, layout })
    }
}

} // verus!
