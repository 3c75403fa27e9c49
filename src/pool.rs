use std::collections::HashMap;
use vstd::prelude::*;
use vstd::std_specs::hash::group_hash_axioms;

use crate::ids::IdError;
use crate::piece::{piece_spec, pieces_from_torrent, Piece, PieceView, TorrentFile};

verus! {

broadcast use group_hash_axioms;

/// Where one piece stands in a download.
#[derive(Debug, Clone, Copy, PartialEq, Eq, Structural)]
pub enum PieceStatus {
    /// In the pool, free to be claimed.
    Available,
    /// Claimed by a worker, not yet written.
    InFlight,
    /// Downloaded and handed to the writer.
    Done,
}

/// The number of `Done` entries.
pub open spec fn count_done(s: Seq<PieceStatus>) -> nat
    decreases s.len(),
{
    if s.len() == 0 {
        0
    } else {
        count_done(s.drop_last()) + if s.last() == PieceStatus::Done {
            1nat
        } else {
            0nat
        }
    }
}

proof fn lemma_count_update(s: Seq<PieceStatus>, i: int, v: PieceStatus)
    requires
        0 <= i < s.len(),
    ensures
        count_done(s.update(i, v)) + (if s[i] == PieceStatus::Done {
            1nat
        } else {
            0nat
        }) == count_done(s) + (if v == PieceStatus::Done {
            1nat
        } else {
            0nat
        }),
    decreases s.len(),
{
    let t = s.update(i, v);
    if i == s.len() - 1 {
        assert(t.drop_last() =~= s.drop_last());
    } else {
        assert(t.drop_last() =~= s.drop_last().update(i, v));
        lemma_count_update(s.drop_last(), i, v);
    }
}

proof fn lemma_count_bound(s: Seq<PieceStatus>)
    ensures
        count_done(s) <= s.len(),
        count_done(s) == s.len() <==> forall|k: int| 0 <= k < s.len() ==> s[k]
            == PieceStatus::Done,
    decreases s.len(),
{
    if s.len() > 0 {
        lemma_count_bound(s.drop_last());
        if count_done(s) == s.len() {
            assert forall|k: int| 0 <= k < s.len() implies s[k] == PieceStatus::Done by {
                if k < s.len() - 1 {
                    assert(s.drop_last()[k] == s[k]);
                }
            }
        }
        if forall|k: int| 0 <= k < s.len() ==> s[k] == PieceStatus::Done {
            assert forall|k: int| 0 <= k < s.drop_last().len() implies s.drop_last()[k]
                == PieceStatus::Done by {
                assert(s.drop_last()[k] == s[k]);
            }
        }
    }
}

/// The state of a download's pieces: the status of each, and the descriptor
/// of each piece that is available.
pub struct PoolView {
    pub status: Seq<PieceStatus>,
    pub available: Map<usize, PieceView>,
}

/// A pool state is sound when the descriptors held are exactly those of the
/// available pieces, each under its own index.
pub open spec fn pool_wf(v: PoolView) -> bool {
    &&& v.status.len() <= usize::MAX
    &&& forall|k: usize| #[trigger]
        v.available.contains_key(k) ==> (k as int) < v.status.len() && v.status[k as int]
            == PieceStatus::Available && v.available[k].index == k as int
    &&& forall|k: int|
        0 <= k < v.status.len() && #[trigger] v.status[k] == PieceStatus::Available
            ==> v.available.contains_key(k as usize)
}

/// The pool after piece `i` is claimed, if it was available.
pub open spec fn after_claim(v: PoolView, i: usize) -> PoolView {
    if v.available.contains_key(i) {
        PoolView {
            status: v.status.update(i as int, PieceStatus::InFlight),
            available: v.available.remove(i),
        }
    } else {
        v
    }
}

/// The pool after a claimed piece `p` is handed back.
pub open spec fn after_release(v: PoolView, p: PieceView) -> PoolView {
    if 0 <= p.index < v.status.len() && v.status[p.index] == PieceStatus::InFlight {
        PoolView {
            status: v.status.update(p.index, PieceStatus::Available),
            available: v.available.insert(p.index as usize, p),
        }
    } else {
        v
    }
}

/// The pool after claimed piece `i` is reported downloaded.
pub open spec fn after_complete(v: PoolView, i: usize) -> PoolView {
    if (i as int) < v.status.len() && v.status[i as int] == PieceStatus::InFlight {
        PoolView { status: v.status.update(i as int, PieceStatus::Done), available: v.available }
    } else {
        v
    }
}

/// The shared registry of pieces not yet downloaded. A worker claims a piece
/// by taking its descriptor out; it hands the descriptor back when the
/// download fails, and reports the piece done when it succeeds.
pub struct PiecePool {
    pieces: HashMap<usize, Piece>,
    status: Vec<PieceStatus>,
    downloaded: usize,
}

impl View for PiecePool {
    type V = PoolView;

    closed spec fn view(&self) -> PoolView {
        PoolView {
            status: self.status@,
            available: self.pieces@.map_values(|p: Piece| p@),
        }
    }
}

impl PiecePool {
    /// The internal invariant: the view is sound and the counter counts the
    /// pieces done.
    pub closed spec fn wf(&self) -> bool {
        &&& pool_wf(self@)
        &&& self.downloaded == count_done(self.status@)
    }

    /// The number of pieces the download has.
    pub open spec fn total(&self) -> nat {
        self@.status.len()
    }

    /// A pool holding the given descriptors, all available; the descriptor
    /// at position `i` must be that of piece `i`.
    pub fn from_pieces(pieces: Vec<Piece>) -> (r: Self)
        requires
            forall|i: int| 0 <= i < pieces@.len() ==> (#[trigger] pieces@[i])@.index == i,
        ensures
            r.wf(),
            r@.status.len() == pieces@.len(),
            forall|i: int| 0 <= i < pieces@.len() ==> r@.status[i] == PieceStatus::Available,
            forall|i: int|
                0 <= i < pieces@.len() ==> r@.available[i as usize] == (#[trigger] pieces@[i])@,
    {
        let n = pieces.len();
        let mut map: HashMap<usize, Piece> = HashMap::new();
        let mut status: Vec<PieceStatus> = Vec::new();
        let mut i: usize = 0;
        while i < n
            invariant
                n == pieces@.len(),
                i <= n,
                status@.len() == i,
                forall|k: int| 0 <= k < i ==> status@[k] == PieceStatus::Available,
                forall|k: int| 0 <= k < pieces@.len() ==> (#[trigger] pieces@[k])@.index == k,
                forall|k: usize| #[trigger] map@.contains_key(k) <==> (k as int) < i,
                forall|k: int| 0 <= k < i ==> map@[k as usize] == pieces@[k],
            decreases n - i,
        {
            let p = pieces[i];
            map.insert(i, p);
            status.push(PieceStatus::Available);
            i = i + 1;
        }
        let r = PiecePool { pieces: map, status, downloaded: 0 };
        proof {
            lemma_count_zero(status@);
            assert forall|k: usize| #[trigger] r@.available.contains_key(k) implies (k as int)
                < r@.status.len() && r@.status[k as int] == PieceStatus::Available
                && r@.available[k].index == k as int by {
                assert(map@.contains_key(k));
                assert(map@[k] == pieces@[k as int]);
            }
            assert forall|k: int|
                0 <= k < r@.status.len() && #[trigger] r@.status[k]
                    == PieceStatus::Available implies r@.available.contains_key(k as usize) by {
                assert(map@.contains_key(k as usize));
            }
            assert forall|k: int| 0 <= k < pieces@.len() implies r@.available[k as usize]
                == (#[trigger] pieces@[k])@ by {
                assert(map@.contains_key(k as usize));
            }
        }
        r
    }

    /// A pool holding every piece of `torrent`, all available; an error for
    /// the first piece whose hash is not 20 bytes long.
    pub fn new(torrent: &TorrentFile) -> (r: Result<Self, IdError>)
        requires
            torrent.piece_length > 0,
        ensures
            r is Ok <==> forall|i: int|
                0 <= i < torrent.piece_hashes@.len() ==> (#[trigger] torrent.piece_hashes@[i])@.len()
                    == 20,
            r matches Err(e) ==> exists|i: int|
                0 <= i < torrent.piece_hashes@.len() && (forall|j: int|
                    0 <= j < i ==> (#[trigger] torrent.piece_hashes@[j])@.len() == 20)
                    && e == IdError::BadLength(torrent.piece_hashes@[i]@.len() as usize)
                    && torrent.piece_hashes@[i]@.len() != 20,
            r matches Ok(p) ==> {
                &&& p.wf()
                &&& p@.status.len() == torrent.piece_hashes@.len()
                &&& forall|i: int| 0 <= i < p@.status.len() ==> p@.status[i] == PieceStatus::Available
                &&& forall|i: int|
                    0 <= i < p@.status.len() ==> p@.available[i as usize] == piece_spec(i, torrent)
            },
    {
        match pieces_from_torrent(torrent) {
            Ok(pieces) => {
                let ghost pv = pieces@;
                let pool = PiecePool::from_pieces(pieces);
                proof {
                    assert forall|i: int| 0 <= i < pool@.status.len() implies pool@.available[i as usize]
                        == piece_spec(i, torrent) by {
                        assert(pv[i]@ == piece_spec(i, torrent));
                    }
                }
                Ok(pool)
            },
            Err(e) => Err(e),
        }
    }

    /// Takes piece `piece_idx` out of the pool, if it is available there.
    /// Only one worker at a time can hold a piece: once claimed it is no longer
    /// available until it is handed back.
    pub fn claim(&mut self, piece_idx: usize) -> (r: Option<Piece>)
        requires
            old(self).wf(),
        ensures
            final(self).wf(),
            final(self)@ == after_claim(old(self)@, piece_idx),
            r is Some <==> old(self)@.available.contains_key(piece_idx),
            r matches Some(p) ==> p@ == old(self)@.available[piece_idx] && p@.index
                == piece_idx && (piece_idx as int) < old(self)@.status.len() && old(
                self,
            )@.status[piece_idx as int] == PieceStatus::Available,
    {
        let r = self.pieces.remove(&piece_idx);
        match r {
            Some(p) => {
                proof {
                    assert(old(self).pieces@.contains_key(piece_idx));
                    assert(old(self)@.available.contains_key(piece_idx));
                    lemma_count_update(self.status@, piece_idx as int, PieceStatus::InFlight);
                }
                self.status.set(piece_idx, PieceStatus::InFlight);
                proof {
                    assert(self@.available =~= old(self)@.available.remove(piece_idx));
                    assert(self@.status =~= old(self)@.status.update(
                        piece_idx as int,
                        PieceStatus::InFlight,
                    ));
                    assert forall|k: usize| #[trigger]
                        self@.available.contains_key(k) implies (k as int) < self@.status.len()
                        && self@.status[k as int] == PieceStatus::Available
                        && self@.available[k].index == k as int by {
                        assert(old(self)@.available.contains_key(k));
                    }
                    assert forall|k: int|
                        0 <= k < self@.status.len() && #[trigger] self@.status[k]
                            == PieceStatus::Available implies self@.available.contains_key(
                        k as usize,
                    ) by {
                        assert(old(self)@.status[k] == PieceStatus::Available);
                        assert(old(self)@.available.contains_key(k as usize));
                    }
                }
                Some(p)
            },
            None => {
                proof {
                    assert(!old(self)@.available.contains_key(piece_idx));
                    assert(self@.available =~= old(self)@.available);
                }
                None
            },
        }
    }

    /// Hands back a piece whose download failed, so that another worker may
    /// try it. Returns whether the piece was in flight; otherwise nothing changes.
    pub fn release(&mut self, piece: Piece) -> (r: bool)
        requires
            old(self).wf(),
        ensures
            final(self).wf(),
            final(self)@ == after_release(old(self)@, piece@),
            r == (0 <= piece@.index < old(self)@.status.len() && old(self)@.status[piece@.index]
                == PieceStatus::InFlight),
    {
        let i = piece.index();
        if i < self.status.len() && self.status[i] == PieceStatus::InFlight {
            proof {
                lemma_count_update(self.status@, i as int, PieceStatus::Available);
            }
            self.status.set(i, PieceStatus::Available);
            let ghost pv = piece@;
            self.pieces.insert(i, piece);
            proof {
                assert(self@.available =~= old(self)@.available.insert(i, pv));
                assert(self@.status =~= old(self)@.status.update(
                    i as int,
                    PieceStatus::Available,
                ));
            }
            true
        } else {
            false
        }
    }

    /// Records that claimed piece `piece_idx` was downloaded. Returns whether
    /// it was in flight; otherwise nothing changes.
    pub fn complete(&mut self, piece_idx: usize) -> (r: bool)
        requires
            old(self).wf(),
        ensures
            final(self).wf(),
            final(self)@ == after_complete(old(self)@, piece_idx),
            r == ((piece_idx as int) < old(self)@.status.len() && old(self)@.status[piece_idx as int]
                == PieceStatus::InFlight),
    {
        if piece_idx < self.status.len() && self.status[piece_idx] == PieceStatus::InFlight {
            proof {
                lemma_count_update(self.status@, piece_idx as int, PieceStatus::Done);
                lemma_count_bound(self.status@);
            }
            self.status.set(piece_idx, PieceStatus::Done);
            self.downloaded = self.downloaded + 1;
            proof {
                assert forall|k: usize| #[trigger]
                    self@.available.contains_key(k) implies (k as int) < self@.status.len()
                    && self@.status[k as int] == PieceStatus::Available
                    && self@.available[k].index == k as int by {
                    assert(old(self)@.available.contains_key(k));
                }
                assert(self@.status =~= old(self)@.status.update(
                    piece_idx as int,
                    PieceStatus::Done,
                ));
            }
            true
        } else {
            false
        }
    }

    /// The number of pieces downloaded so far.
    pub fn downloaded(&self) -> (r: usize)
        requires
            self.wf(),
        ensures
            r == count_done(self@.status),
    {
        self.downloaded
    }

    /// Whether every piece has been downloaded.
    pub fn is_finished(&self) -> (r: bool)
        requires
            self.wf(),
        ensures
            r <==> forall|k: int| 0 <= k < self@.status.len() ==> self@.status[k]
                == PieceStatus::Done,
    {
        proof {
            lemma_count_bound(self.status@);
        }
        self.downloaded == self.status.len()
    }
}

/// At most one worker holds a piece: claiming a piece takes it out of the
/// pool and marks it in flight, so that a second claim finds nothing until the
/// piece is handed back; and in a sound pool no piece in flight or done is
/// available.
pub proof fn lemma_claim_exclusive(v: PoolView, i: usize)
    requires
        pool_wf(v),
    ensures
        !after_claim(v, i).available.contains_key(i),
        after_claim(after_claim(v, i), i) == after_claim(v, i),
        v.available.contains_key(i) ==> after_claim(v, i).status[i as int]
            == PieceStatus::InFlight,
        forall|k: usize| #[trigger]
            v.available.contains_key(k) ==> v.status[k as int] == PieceStatus::Available,
{
}

proof fn lemma_count_zero(s: Seq<PieceStatus>)
    requires
        forall|k: int| 0 <= k < s.len() ==> s[k] == PieceStatus::Available,
    ensures
        count_done(s) == 0,
    decreases s.len(),
{
    if s.len() > 0 {
        lemma_count_zero(s.drop_last());
    }
}

} // verus!
