use vstd::prelude::*;

use crate::ids::IdError;

verus! {

/// The parts of a torrent's metainfo that a download reads.
pub struct TorrentFile {
    /// The tracker's announce URL, when the metainfo names one.
    pub announce: Option<String>,
    /// The 20-byte SHA-1 of the metainfo's `info` dictionary.
    pub info_hash: Vec<u8>,
    /// The expected SHA-1 of each piece, in piece order.
    pub piece_hashes: Vec<Vec<u8>>,
    /// The length of every piece but possibly the last.
    pub piece_length: usize,
    /// The length of the whole file.
    pub length: usize,
    /// The file's name.
    pub name: String,
}

/// The length of piece `i` of `count` pieces: `piece_length`, except that the
/// last piece holds what remains of `total` when that is not zero.
pub open spec fn piece_len_spec(i: int, count: int, piece_length: int, total: int) -> int
    recommends
        piece_length > 0,
{
    if i == count - 1 && total % piece_length != 0 {
        total % piece_length
    } else {
        piece_length
    }
}

/// What a piece descriptor says.
pub struct PieceView {
    pub index: int,
    pub length: int,
    pub hash: Seq<u8>,
}

/// One downloaded piece: its index and its bytes.
#[derive(Debug, Clone)]
pub struct PieceData {
    pub piece_idx: usize,
    pub data: Vec<u8>,
}

/// What is needed to fetch one piece: its index, length and expected SHA-1.
#[derive(Debug, Clone, Copy)]
pub struct Piece {
    piece_idx: usize,
    length: usize,
    hash: [u8; 20],
}

impl View for Piece {
    type V = PieceView;

    closed spec fn view(&self) -> PieceView {
        PieceView { index: self.piece_idx as int, length: self.length as int, hash: self.hash@ }
    }
}

/// The descriptor of piece `i` of `torrent`, when its hash is 20 bytes long.
pub open spec fn piece_spec(i: int, torrent: &TorrentFile) -> PieceView {
    PieceView {
        index: i,
        length: piece_len_spec(
            i,
            torrent.piece_hashes@.len() as int,
            torrent.piece_length as int,
            torrent.length as int,
        ),
        hash: torrent.piece_hashes@[i]@,
    }
}

impl Piece {
    /// The descriptor of piece `piece_idx` of `torrent`; an error when the
    /// metainfo's hash for it is not 20 bytes long.
    pub fn new(piece_idx: usize, torrent: &TorrentFile) -> (r: Result<Self, IdError>)
        requires
            piece_idx < torrent.piece_hashes@.len(),
            torrent.piece_length > 0,
        ensures
            r is Ok <==> torrent.piece_hashes@[piece_idx as int]@.len() == 20,
            r matches Ok(p) ==> p@ == piece_spec(piece_idx as int, torrent),
            r matches Err(e) ==> e == IdError::BadLength(
                torrent.piece_hashes@[piece_idx as int]@.len() as usize,
            ),
    {
        let piece_hash = torrent.piece_hashes[piece_idx].clone();
        let count = torrent.piece_hashes.len();
        let md = torrent.length % torrent.piece_length;
        let piece_size = if piece_idx == count - 1 && md != 0 {
            md
        } else {
            torrent.piece_length
        };
        match crate::ids::Hash::new(piece_hash) {
            Ok(h) => {
                let hash = h.to_arr();
                Ok(Piece { piece_idx, length: piece_size, hash })
            },
            Err(e) => Err(e),
        }
    }

    /// The piece's index.
    pub fn index(&self) -> (r: usize)
        ensures
            r == self@.index,
    {
        self.piece_idx
    }

    /// The piece's expected SHA-1.
    pub fn hash(&self) -> (r: [u8; 20])
        ensures
            r@ == self@.hash,
    {
        self.hash
    }

    /// The piece's length in bytes.
    pub fn length(&self) -> (r: usize)
        ensures
            r == self@.length,
    {
        self.length
    }
}

/// The descriptors of every piece of `torrent`, in order; an error for the
/// first piece whose hash is not 20 bytes long.
pub fn pieces_from_torrent(torrent: &TorrentFile) -> (r: Result<Vec<Piece>, IdError>)
    requires
        torrent.piece_length > 0,
    ensures
        r is Ok <==> forall|i: int|
            0 <= i < torrent.piece_hashes@.len() ==> (#[trigger] torrent.piece_hashes@[i])@.len()
                == 20,
        r matches Ok(v) ==> v@.len() == torrent.piece_hashes@.len() && forall|i: int|
            0 <= i < v@.len() ==> (#[trigger] v@[i])@ == piece_spec(i, torrent),
        r matches Err(e) ==> exists|i: int|
            0 <= i < torrent.piece_hashes@.len() && (forall|j: int|
                0 <= j < i ==> (#[trigger] torrent.piece_hashes@[j])@.len() == 20)
                && e == IdError::BadLength(torrent.piece_hashes@[i]@.len() as usize)
                && torrent.piece_hashes@[i]@.len() != 20,
{
    let mut pieces: Vec<Piece> = Vec::new();
    let n = torrent.piece_hashes.len();
    let mut i: usize = 0;
    while i < n
        invariant
            n == torrent.piece_hashes@.len(),
            torrent.piece_length > 0,
            i <= n,
            pieces@.len() == i,
            forall|j: int| 0 <= j < i ==> (#[trigger] torrent.piece_hashes@[j])@.len() == 20,
            forall|j: int| 0 <= j < i ==> (#[trigger] pieces@[j])@ == piece_spec(j, torrent),
        decreases n - i,
    {
        match Piece::new(i, torrent) {
            Ok(p) => {
                pieces.push(p);
            },
            Err(e) => {
                return Err(e);
            },
        }
        i = i + 1;
    }
    Ok(pieces)
}

} // verus!
