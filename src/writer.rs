use vstd::prelude::*;

use crate::piece::piece_len_spec;

verus! {

/// Whether `count` pieces of `piece_length` bytes, the last one possibly
/// shorter, make up exactly `total` bytes.
pub open spec fn layout_ok(count: int, piece_length: int, total: int) -> bool {
    &&& piece_length > 0
    &&& count == total / piece_length + if total % piece_length != 0 {
        1int
    } else {
        0int
    }
}

/// Where piece `i` starts in the file.
pub open spec fn offset_spec(i: int, piece_length: int) -> int {
    i * piece_length
}

/// Every piece lies inside the file, and its length is positive.
pub proof fn lemma_piece_in_file(i: int, count: int, piece_length: int, total: int)
    requires
        layout_ok(count, piece_length, total),
        0 <= i < count,
        total >= 0,
    ensures
        0 < piece_len_spec(i, count, piece_length, total) <= piece_length,
        offset_spec(i, piece_length) + piece_len_spec(i, count, piece_length, total) <= total,
        i == count - 1 ==> offset_spec(i, piece_length) + piece_len_spec(
            i,
            count,
            piece_length,
            total,
        ) == total,
        0 <= offset_spec(i, piece_length),
{
    let q = total / piece_length;
    let r = total % piece_length;
    assert(total == q * piece_length + r) by (nonlinear_arith)
        requires
            piece_length > 0,
            q == total / piece_length,
            r == total % piece_length,
    ;
    assert(0 <= r < piece_length);
    if r != 0 && i == count - 1 {
        assert(i == q);
    } else {
        assert(i + 1 <= q);
        assert((i + 1) * piece_length <= q * piece_length) by (nonlinear_arith)
            requires
                i + 1 <= q,
                piece_length > 0,
        ;
        if i == count - 1 {
            assert(i + 1 == q);
        }
    }
    assert(i * piece_length >= 0) by (nonlinear_arith)
        requires
            i >= 0,
            piece_length > 0,
    ;
    assert((i + 1) * piece_length == i * piece_length + piece_length) by (nonlinear_arith);
}

/// Pieces with different indices occupy disjoint ranges of the file.
pub proof fn lemma_disjoint(i: int, j: int, count: int, piece_length: int, total: int)
    requires
        layout_ok(count, piece_length, total),
        0 <= i < j < count,
    ensures
        offset_spec(i, piece_length) + piece_len_spec(i, count, piece_length, total)
            <= offset_spec(j, piece_length),
{
    assert(piece_len_spec(i, count, piece_length, total) == piece_length);
    assert((i + 1) * piece_length <= j * piece_length) by (nonlinear_arith)
        requires
            i + 1 <= j,
            piece_length > 0,
    ;
    assert((i + 1) * piece_length == i * piece_length + piece_length) by (nonlinear_arith);
}

/// `file` with `data` written over it from `offset` on.
pub open spec fn place(file: Seq<u8>, offset: int, data: Seq<u8>) -> Seq<u8> {
    file.subrange(0, offset) + data + file.subrange(offset + data.len(), file.len() as int)
}

/// A piece as the writer receives it: its index and bytes.
pub struct Received {
    pub index: int,
    pub data: Seq<u8>,
}

/// The bytes of a received piece that go into the file: as many as the
/// piece has, or all of them when fewer came.
pub open spec fn written_part(w: Received, count: int, piece_length: int, total: int) -> Seq<u8> {
    let len = piece_len_spec(w.index, count, piece_length, total);
    if w.data.len() < len {
        w.data
    } else {
        w.data.subrange(0, len)
    }
}

/// The file after the received pieces are written in the order given, each
/// at its offset, cut to its piece's length.
pub open spec fn apply_writes(
    file: Seq<u8>,
    ws: Seq<Received>,
    count: int,
    piece_length: int,
    total: int,
) -> Seq<u8>
    decreases ws.len(),
{
    if ws.len() == 0 {
        file
    } else {
        let w = ws.last();
        place(
            apply_writes(file, ws.drop_last(), count, piece_length, total),
            offset_spec(w.index, piece_length),
            written_part(w, count, piece_length, total),
        )
    }
}

/// Whether the received pieces have distinct valid indices and each holds
/// at least as many bytes as its piece has.
pub open spec fn writes_ok(ws: Seq<Received>, count: int, piece_length: int, total: int) -> bool {
    &&& forall|k: int| 0 <= k < ws.len() ==> 0 <= #[trigger] ws[k].index < count
    &&& forall|k: int|
        0 <= k < ws.len() ==> (#[trigger] ws[k]).data.len() >= piece_len_spec(
            ws[k].index,
            count,
            piece_length,
            total,
        )
    &&& forall|a: int, b: int| 0 <= a < b < ws.len() ==> ws[a].index != ws[b].index
}

/// Written into a file pre-sized to `total` bytes, in whatever order they
/// arrive, the pieces leave the file at its size, and the bytes of each
/// piece's range are the first bytes received for that piece, as many as the
/// piece has.
pub proof fn lemma_file_holds_pieces(
    file: Seq<u8>,
    ws: Seq<Received>,
    count: int,
    piece_length: int,
    total: int,
)
    requires
        layout_ok(count, piece_length, total),
        file.len() == total,
        writes_ok(ws, count, piece_length, total),
    ensures
        apply_writes(file, ws, count, piece_length, total).len() == total,
        forall|k: int|
            0 <= k < ws.len() ==> apply_writes(file, ws, count, piece_length, total).subrange(
                offset_spec(#[trigger] ws[k].index, piece_length),
                offset_spec(ws[k].index, piece_length) + piece_len_spec(
                    ws[k].index,
                    count,
                    piece_length,
                    total,
                ),
            ) == ws[k].data.subrange(0, piece_len_spec(ws[k].index, count, piece_length, total)),
    decreases ws.len(),
{
    if ws.len() > 0 {
        let prefix = ws.drop_last();
        let w = ws.last();
        assert(writes_ok(prefix, count, piece_length, total)) by {
            assert forall|k: int| 0 <= k < prefix.len() implies 0 <= #[trigger] prefix[k].index
                < count by {
                assert(prefix[k] == ws[k]);
            }
            assert forall|k: int| 0 <= k < prefix.len() implies (#[trigger] prefix[k]).data.len()
                >= piece_len_spec(prefix[k].index, count, piece_length, total) by {
                assert(prefix[k] == ws[k]);
            }
        }
        lemma_file_holds_pieces(file, prefix, count, piece_length, total);
        let before = apply_writes(file, prefix, count, piece_length, total);
        let after = apply_writes(file, ws, count, piece_length, total);
        let ow = offset_spec(w.index, piece_length);
        let lw = piece_len_spec(w.index, count, piece_length, total);
        assert(0 <= ws.len() - 1 < ws.len());
        assert(0 <= ws[ws.len() - 1].index < count);
        assert(ws[ws.len() - 1].data.len() >= lw);
        lemma_piece_in_file(w.index, count, piece_length, total);
        let part = written_part(w, count, piece_length, total);
        assert(part == w.data.subrange(0, lw));
        assert(after == place(before, ow, part));
        assert(after.len() == total);
        assert forall|k: int|
            0 <= k < ws.len() implies after.subrange(
            offset_spec(#[trigger] ws[k].index, piece_length),
            offset_spec(ws[k].index, piece_length) + piece_len_spec(
                ws[k].index,
                count,
                piece_length,
                total,
            ),
        ) == ws[k].data.subrange(0, piece_len_spec(ws[k].index, count, piece_length, total)) by {
            let ok = offset_spec(ws[k].index, piece_length);
            let lk = piece_len_spec(ws[k].index, count, piece_length, total);
            if k == ws.len() - 1 {
                assert(after.subrange(ow, ow + lw) =~= part);
            } else {
                assert(prefix[k] == ws[k]);
                lemma_piece_in_file(ws[k].index, count, piece_length, total);
                assert(ws[k].index != w.index);
                if ws[k].index < w.index {
                    lemma_disjoint(ws[k].index, w.index, count, piece_length, total);
                } else {
                    lemma_disjoint(w.index, ws[k].index, count, piece_length, total);
                }
                assert(before.subrange(ok, ok + lk) == ws[k].data.subrange(0, lk));
                assert(after.subrange(ok, ok + lk) =~= before.subrange(ok, ok + lk));
            }
        }
    }
}

/// Why the writer refused a piece.
#[derive(Debug, Clone, Copy, PartialEq, Eq, Structural)]
pub enum WriterError {
    /// The piece's index is not below the number of pieces.
    InvalidIndex(usize),
}

/// Where the bytes of one received piece go: from `offset` on, `len` of them.
#[derive(Debug, Clone, Copy, PartialEq, Eq, Structural)]
pub struct WritePlan {
    pub offset: usize,
    pub len: usize,
}

/// How the output file divides into pieces.
#[derive(Debug, Clone, Copy)]
pub struct FileLayout {
    total_pieces: usize,
    piece_length: usize,
    total_size: usize,
}

impl FileLayout {
    /// The number of pieces.
    pub closed spec fn spec_total_pieces(&self) -> int {
        self.total_pieces as int
    }

    /// The length of every piece but possibly the last.
    pub closed spec fn spec_piece_length(&self) -> int {
        self.piece_length as int
    }

    /// The size of the file.
    pub closed spec fn spec_total_size(&self) -> int {
        self.total_size as int
    }

    #[verifier::type_invariant]
    spec fn inv(&self) -> bool {
        layout_ok(self.total_pieces as int, self.piece_length as int, self.total_size as int)
    }

    /// The layout of a file of `total_size` bytes cut into `total_pieces`
    /// pieces of `piece_length`; `None` when those do not agree.
    pub fn new(total_pieces: usize, piece_length: usize, total_size: usize) -> (r: Option<Self>)
        ensures
            r is Some <==> layout_ok(total_pieces as int, piece_length as int, total_size as int),
            r matches Some(l) ==> l.spec_total_pieces() == total_pieces && l.spec_piece_length()
                == piece_length && l.spec_total_size() == total_size,
    {
        if piece_length == 0 {
            return None;
        }
        let extra: usize = if total_size % piece_length != 0 { 1 } else { 0 };
        if total_pieces < extra || total_pieces - extra != total_size / piece_length {
            return None;
        }
        Some(FileLayout { total_pieces, piece_length, total_size })
    }

    /// The number of pieces.
    pub fn total_pieces(&self) -> (r: usize)
        ensures
            r == self.spec_total_pieces(),
    {
        self.total_pieces
    }

    /// The size of the whole file.
    pub fn total_size(&self) -> (r: usize)
        ensures
            r == self.spec_total_size(),
    {
        self.total_size
    }

    /// Where the bytes received for piece `index` go, when `data_len` bytes
    /// came: at the piece's offset, as many as the piece has and came.
    pub fn plan(&self, index: usize, data_len: usize) -> (r: Result<WritePlan, WriterError>)
        ensures
            r is Err <==> index >= self.spec_total_pieces(),
            r matches Err(e) ==> e == WriterError::InvalidIndex(index),
            r matches Ok(p) ==> {
                &&& p.offset == offset_spec(index as int, self.spec_piece_length())
                &&& p.len == if data_len < piece_len_spec(
                    index as int,
                    self.spec_total_pieces(),
                    self.spec_piece_length(),
                    self.spec_total_size(),
                ) {
                    data_len as int
                } else {
                    piece_len_spec(
                        index as int,
                        self.spec_total_pieces(),
                        self.spec_piece_length(),
                        self.spec_total_size(),
                    )
                }
                &&& p.offset + p.len <= self.spec_total_size()
            },
    {
        proof {
            use_type_invariant(self);
        }
        if index >= self.total_pieces {
            return Err(WriterError::InvalidIndex(index));
        }
        proof {
            lemma_piece_in_file(
                index as int,
                self.total_pieces as int,
                self.piece_length as int,
                self.total_size as int,
            );
        }
        let offset = index * self.piece_length;
        let md = self.total_size % self.piece_length;
        let piece_len = if index == self.total_pieces - 1 && md != 0 {
            md
        } else {
            self.piece_length
        };
        let len = if data_len < piece_len {
            data_len
        } else {
            piece_len
        };
        Ok(WritePlan { offset, len })
    }
}

} // verus!
