use sha1::Digest;
use vstd::prelude::*;

use crate::bitfield::{set_bit, Bitfield};
use crate::message::{MessageView, PeerMessage};
use crate::piece::{Piece, PieceData};

verus! {

/// The length of the blocks a piece is requested in.
pub const BLOCK_SIZE: usize = 16384;

/// What we know of one peer: the four choke/interest flags and the pieces
/// it has advertised.
pub struct PeerStateView {
    pub am_choking: bool,
    pub am_interested: bool,
    pub peer_choking: bool,
    pub peer_interested: bool,
    pub has_info: bool,
    pub bits: Seq<u8>,
}

/// The effect of a received message on what we know of the peer.
pub open spec fn receive_spec(s: PeerStateView, m: MessageView) -> PeerStateView {
    match m {
        MessageView::Choke => PeerStateView { peer_choking: true, ..s },
        MessageView::Unchoke => PeerStateView { peer_choking: false, ..s },
        MessageView::Interested => PeerStateView { peer_interested: true, ..s },
        MessageView::NotInterested => PeerStateView { peer_interested: false, ..s },
        MessageView::Have { piece_index } => PeerStateView {
            has_info: true,
            bits: set_bit(s.bits, piece_index as int),
            ..s
        },
        MessageView::Bitfield { bits } => PeerStateView { has_info: true, bits: bits, ..s },
        _ => s,
    }
}

/// The protocol state of one peer connection.
pub struct PeerState {
    pub am_choking: bool,
    pub am_interested: bool,
    pub peer_choking: bool,
    pub peer_interested: bool,
    /// Whether the peer has sent a `Bitfield` or a `Have`.
    pub has_info: bool,
    pub bitfield: Bitfield,
}

impl View for PeerState {
    type V = PeerStateView;

    open spec fn view(&self) -> PeerStateView {
        PeerStateView {
            am_choking: self.am_choking,
            am_interested: self.am_interested,
            peer_choking: self.peer_choking,
            peer_interested: self.peer_interested,
            has_info: self.has_info,
            bits: self.bitfield@,
        }
    }
}

/// A block of a piece, as a peer sent it.
pub struct Block {
    pub index: u32,
    pub begin: u32,
    pub data: Vec<u8>,
}

impl PeerState {
    /// A fresh connection to a torrent of `piece_count` pieces: both sides
    /// choking, neither interested, nothing advertised.
    pub fn new(piece_count: usize) -> (r: Self)
        ensures
            r.am_choking && !r.am_interested && r.peer_choking && !r.peer_interested,
            !r.has_info,
            r.bitfield@.len() == crate::bitfield::bytes_for(piece_count as nat),
            forall|i: int| !crate::bitfield::bit_at(r.bitfield@, i),
    {
        PeerState {
            am_choking: true,
            am_interested: false,
            peer_choking: true,
            peer_interested: false,
            has_info: false,
            bitfield: Bitfield::empty_with_piece_capacity(piece_count),
        }
    }

    /// Records that we told the peer we are interested.
    pub fn sent_interested(&mut self)
        ensures
            final(self)@ == (PeerStateView { am_interested: true, ..old(self)@ }),
    {
        self.am_interested = true;
    }

    /// Applies a received message. A `Piece` is handed back as a block;
    /// `Request` and `Cancel` change nothing, as this client does not upload.
    pub fn receive(&mut self, msg: PeerMessage) -> (r: Option<Block>)
        ensures
            final(self)@ == receive_spec(old(self)@, msg@),
            r is Some <==> msg@ is Piece,
            r matches Some(b) ==> msg@ == (MessageView::Piece {
                index: b.index,
                begin: b.begin,
                block: b.data@,
            }),
    {
        match msg {
            PeerMessage::Choke => {
                self.peer_choking = true;
                None
            },
            PeerMessage::Unchoke => {
                self.peer_choking = false;
                None
            },
            PeerMessage::Interested => {
                self.peer_interested = true;
                None
            },
            PeerMessage::NotInterested => {
                self.peer_interested = false;
                None
            },
            PeerMessage::Have { piece_index } => {
                self.bitfield.set_piece(piece_index as usize);
                self.has_info = true;
                None
            },
            PeerMessage::Bitfield { bitfield } => {
                self.bitfield = bitfield;
                self.has_info = true;
                None
            },
            PeerMessage::Request { .. } => None,
            PeerMessage::Cancel { .. } => None,
            PeerMessage::Piece { index, begin, block } => Some(Block { index, begin, data: block }),
        }
    }

    /// Whether pieces may be requested: the peer has said what it has and
    /// does not choke us.
    pub fn is_ready(&self) -> (r: bool)
        ensures
            r == (self.has_info && !self.peer_choking),
    {
        self.has_info && !self.peer_choking
    }
}

/// One request of a block: piece, offset in it, length.
#[derive(Debug, Clone, Copy, PartialEq, Eq, Structural)]
pub struct BlockRequest {
    pub index: u32,
    pub begin: u32,
    pub length: u32,
}

/// The number of blocks a piece of `len` bytes takes.
pub open spec fn block_count(len: int) -> int {
    len / (BLOCK_SIZE as int) + if len % (BLOCK_SIZE as int) != 0 {
        1int
    } else {
        0int
    }
}

/// The `k`-th request for piece `index` of `len` bytes.
pub open spec fn block_request_spec(index: u32, len: int, k: int) -> BlockRequest {
    let begin = k * (BLOCK_SIZE as int);
    BlockRequest {
        index,
        begin: begin as u32,
        length: (if len - begin < (BLOCK_SIZE as int) {
            len - begin
        } else {
            BLOCK_SIZE as int
        }) as u32,
    }
}

/// The requests that fetch piece `index` of `len` bytes, block by block in
/// order; the last block may be shorter.
pub fn block_requests(index: u32, len: u32) -> (r: Vec<BlockRequest>)
    ensures
        r@.len() == block_count(len as int),
        forall|k: int| 0 <= k < r@.len() ==> r@[k] == block_request_spec(index, len as int, k),
{
    let n: u64 = (len as u64) / (BLOCK_SIZE as u64) + if (len as u64) % (BLOCK_SIZE as u64) != 0 {
        1u64
    } else {
        0u64
    };
    let mut out: Vec<BlockRequest> = Vec::new();
    let mut k: u64 = 0;
    while k < n
        invariant
            n == block_count(len as int),
            k <= n,
            out@.len() == k,
            forall|j: int| 0 <= j < k ==> out@[j] == block_request_spec(index, len as int, j),
        decreases n - k,
    {
        assert(k * 16384 < len) by (nonlinear_arith)
            requires
                k < n,
                n == len as int / 16384 + if len as int % 16384 != 0 {
                    1int
                } else {
                    0int
                },
        ;
        let begin: u64 = k * (BLOCK_SIZE as u64);
        let remaining: u64 = (len as u64) - begin;
        let length: u64 = if remaining < BLOCK_SIZE as u64 {
            remaining
        } else {
            BLOCK_SIZE as u64
        };
        out.push(BlockRequest { index, begin: begin as u32, length: length as u32 });
        k = k + 1;
    }
    out
}

/// The SHA-1 digest of a byte string.
pub uninterp spec fn sha1_of(data: Seq<u8>) -> Seq<u8>;

/// Relies on sha1's `Sha1::digest`: the 20-byte SHA-1 of the data, which
/// depends on the data alone.
#[verifier::external_body]
fn sha1_digest(data: &[u8]) -> (r: [u8; 20])
    ensures
        r@ == sha1_of(data@),
{
    sha1::Sha1::digest(data).into()
}

/// Whether a computed digest is the expected one.
pub fn digest_matches(expected: &[u8; 20], digest: &[u8; 20]) -> (r: bool)
    ensures
        r == (expected@ == digest@),
{
    let mut i: usize = 0;
    while i < 20
        invariant
            i <= 20,
            forall|k: int| 0 <= k < i ==> expected@[k] == digest@[k],
        decreases 20 - i,
    {
        if expected[i] != digest[i] {
            return false;
        }
        i = i + 1;
    }
    proof {
        assert(expected@ =~= digest@);
    }
    true
}

/// Why a piece attempt failed.
#[derive(Debug, Clone, Copy, PartialEq, Eq, Structural)]
pub enum DownloadError {
    /// Blocks are still missing.
    Incomplete,
    /// The bytes have another length or another SHA-1 than the metainfo says.
    HashMismatch,
}

/// The progress of one piece attempt.
pub struct DownloadView {
    pub piece: crate::piece::PieceView,
    pub requests: Seq<BlockRequest>,
    pub next: int,
    pub data: Seq<u8>,
}

/// One piece being fetched from one peer: the requests to send, how many
/// blocks have come, and their bytes so far.
pub struct PieceDownload {
    piece: Piece,
    requests: Vec<BlockRequest>,
    next: usize,
    data: Vec<u8>,
}

impl View for PieceDownload {
    type V = DownloadView;

    closed spec fn view(&self) -> DownloadView {
        DownloadView {
            piece: self.piece@,
            requests: self.requests@,
            next: self.next as int,
            data: self.data@,
        }
    }
}

impl PieceDownload {
    /// No more blocks have come than were requested.
    pub open spec fn wf(&self) -> bool {
        self@.next <= self@.requests.len()
    }

    /// A fresh attempt at `piece`, with no block received yet.
    pub fn new(piece: Piece) -> (r: Self)
        requires
            piece@.index <= u32::MAX,
            piece@.length <= u32::MAX,
        ensures
            r.wf(),
            r@.piece == piece@,
            r@.next == 0,
            r@.data.len() == 0,
            r@.requests.len() == block_count(piece@.length),
            forall|k: int|
                0 <= k < r@.requests.len() ==> r@.requests[k] == block_request_spec(
                    piece@.index as u32,
                    piece@.length,
                    k,
                ),
    {
        let requests = block_requests(piece.index() as u32, piece.length() as u32);
        PieceDownload { piece, requests, next: 0, data: Vec::new() }
    }

    /// The request for the next missing block, if a block is missing.
    pub fn pending_request(&self) -> (r: Option<BlockRequest>)
        requires
            self.wf(),
        ensures
            r == if self@.next < self@.requests.len() {
                Some(self@.requests[self@.next])
            } else {
                None::<BlockRequest>
            },
    {
        if self.next < self.requests.len() {
            Some(self.requests[self.next])
        } else {
            None
        }
    }

    /// Takes a received block when it is the one awaited (same piece, same
    /// offset), appending its bytes; any other block is ignored.
    pub fn accept(&mut self, block: Block) -> (r: bool)
        requires
            old(self).wf(),
        ensures
            final(self).wf(),
            r == (old(self)@.next < old(self)@.requests.len() && block.index == old(
                self,
            )@.requests[old(self)@.next].index && block.begin == old(self)@.requests[old(
                self,
            )@.next].begin),
            r ==> final(self)@ == (DownloadView {
                next: old(self)@.next + 1,
                data: old(self)@.data + block.data@,
                ..old(self)@
            }),
            !r ==> final(self)@ == old(self)@,
    {
        if self.next < self.requests.len() {
            let req = self.requests[self.next];
            if block.index == req.index && block.begin == req.begin {
                let mut bytes = block.data;
                self.data.append(&mut bytes);
                self.next = self.next + 1;
                return true;
            }
        }
        false
    }

    /// Whether every block has come.
    pub fn is_complete(&self) -> (r: bool)
        requires
            self.wf(),
        ensures
            r == (self@.next == self@.requests.len()),
    {
        self.next == self.requests.len()
    }

    /// The piece, once every block has come and the bytes have the piece's
    /// length and expected SHA-1.
    pub fn finish(self) -> (r: Result<PieceData, DownloadError>)
        requires
            self.wf(),
        ensures
            r is Ok <==> (self@.next == self@.requests.len() && self@.data.len()
                == self@.piece.length && sha1_of(self@.data) == self@.piece.hash),
            self@.next < self@.requests.len() ==> r == Err::<PieceData, DownloadError>(
                DownloadError::Incomplete,
            ),
            self@.next == self@.requests.len() && !(self@.data.len() == self@.piece.length
                && sha1_of(self@.data) == self@.piece.hash) ==> r == Err::<
                PieceData,
                DownloadError,
            >(DownloadError::HashMismatch),
            r matches Ok(d) ==> d.piece_idx == self@.piece.index && d.data@ == self@.data,
    {
        if self.next < self.requests.len() {
            return Err(DownloadError::Incomplete);
        }
        let digest = sha1_digest(self.data.as_slice());
        let expected = self.piece.hash();
        if self.data.len() == self.piece.length() && digest_matches(&expected, &digest) {
            Ok(PieceData { piece_idx: self.piece.index(), data: self.data })
        } else {
            Err(DownloadError::HashMismatch)
        }
    }
}

/// The number of quiet waiting windows after which a worker scans the
/// peer's pieces again anyway.
pub const MAX_QUIET_WINDOWS: u32 = 5;

/// Whether a worker waiting for news of a peer's pieces should scan them
/// again: after news (a `Have` or a `Bitfield`), or after the last of the
/// quiet windows it waits.
pub fn should_rescan(quiet_windows: u32, got_news: bool) -> (r: bool)
    ensures
        r == (got_news || quiet_windows >= MAX_QUIET_WINDOWS),
{
    got_news || quiet_windows >= MAX_QUIET_WINDOWS
}

} // verus!
