use vstd::prelude::*;

verus! {

/// Whether bit `k` (0 = most significant) of `byte` is set.
pub open spec fn byte_bit(byte: u8, k: int) -> bool {
    0 <= k < 8 && (byte >> ((7 - k) as u8)) & 1u8 == 1u8
}

/// Whether piece `i` is marked in a packed, MSB-first bit vector.
/// Indices outside the vector are never marked.
pub open spec fn bit_at(bytes: Seq<u8>, i: int) -> bool {
    0 <= i < bytes.len() * 8 && byte_bit(bytes[i / 8], i % 8)
}

/// Number of bytes needed to hold `n` bits.
pub open spec fn bytes_for(n: nat) -> nat {
    (n + 7) / 8
}

/// The bytes with piece `i` marked; unchanged when `i` lies past the end.
pub open spec fn set_bit(bytes: Seq<u8>, i: int) -> Seq<u8> {
    if 0 <= i < bytes.len() * 8 {
        bytes.update(i / 8, bytes[i / 8] | (0x80u8 >> ((i % 8) as u8)))
    } else {
        bytes
    }
}

/// Marking piece `i` marks it when it is in range, leaves every other piece
/// as it was, and no index out of range is ever marked.
pub proof fn lemma_set_then_has(bytes: Seq<u8>, i: int, j: int)
    ensures
        bit_at(set_bit(bytes, i), i) == (0 <= i < bytes.len() * 8),
        j != i ==> bit_at(set_bit(bytes, i), j) == bit_at(bytes, j),
        !(0 <= j < bytes.len() * 8) ==> !bit_at(set_bit(bytes, i), j),
        set_bit(bytes, i).len() == bytes.len(),
{
    if 0 <= i < bytes.len() * 8 {
        let after = set_bit(bytes, i);
        let k = (i % 8) as u8;
        lemma_set_bit(bytes[i / 8], k, k);
        if 0 <= j < bytes.len() * 8 && j / 8 == i / 8 {
            lemma_set_bit(bytes[i / 8], k, (j % 8) as u8);
        }
    }
}

proof fn lemma_set_bit(b: u8, k: u8, j: u8)
    requires
        k < 8,
        j < 8,
    ensures
        ((b | (0x80u8 >> k)) >> ((7 - j) as u8)) & 1u8 == 1u8 <==> (j == k || (b >> ((7 - j) as u8)) & 1u8
            == 1u8),
{
    assert(((b | (0x80u8 >> k)) >> ((7 - j) as u8)) & 1u8 == 1u8 <==> (j == k || (b >> ((7 - j) as u8)) & 1u8
        == 1u8)) by (bit_vector)
        requires
            k < 8,
            j < 8,
    ;
}

proof fn lemma_zero_byte(k: int)
    ensures
        !byte_bit(0u8, k),
{
    if 0 <= k < 8 {
        let s = (7 - k) as u8;
        assert((0u8 >> s) & 1u8 == 0u8) by (bit_vector);
    }
}

/// A packed boolean vector indexed by piece number. Piece `i` lives in byte
/// `i / 8`, under mask `0x80 >> (i % 8)`, as the peer wire carries it.
#[derive(Debug, Clone)]
pub struct Bitfield {
    bytes: Vec<u8>,
}

impl View for Bitfield {
    type V = Seq<u8>;

    closed spec fn view(&self) -> Seq<u8> {
        self.bytes@
    }
}

impl Bitfield {
    /// The bitfield whose bytes are `bytes`, taken as they stand.
    pub fn new(bytes: Vec<u8>) -> (r: Self)
        ensures
            r@ == bytes@,
    {
        Bitfield { bytes }
    }

    /// A bitfield with room for `piece_count` pieces and no piece marked.
    pub fn empty_with_piece_capacity(piece_count: usize) -> (r: Self)
        ensures
            r@.len() == bytes_for(piece_count as nat),
            forall|k: int| 0 <= k < r@.len() ==> r@[k] == 0u8,
            forall|i: int| !bit_at(r@, i),
    {
        let n: usize = piece_count / 8 + if piece_count % 8 == 0 { 0usize } else { 1usize };
        let bytes = vec![0u8; n];
        proof {
            assert forall|i: int| !bit_at(bytes@, i) by {
                if 0 <= i < bytes@.len() * 8 {
                    lemma_zero_byte(i % 8);
                }
            }
        }
        Bitfield { bytes }
    }

    /// The packed bytes, as they go on the wire.
    pub fn as_bytes(&self) -> (r: &Vec<u8>)
        ensures
            r@ == self@,
    {
        &self.bytes
    }

    /// Whether piece `piece_idx` is marked; `false` past the end.
    pub fn has_piece(&self, piece_idx: usize) -> (r: bool)
        ensures
            r == bit_at(self@, piece_idx as int),
    {
        let byte_idx = piece_idx / 8;
        if byte_idx >= self.bytes.len() {
            return false;
        }
        let bit = (piece_idx % 8) as u8;
        (self.bytes[byte_idx] >> (7 - bit)) & 1u8 == 1u8
    }

    /// Marks piece `piece_idx`; past the end nothing changes.
    pub fn set_piece(&mut self, piece_idx: usize)
        ensures
            final(self)@ == set_bit(old(self)@, piece_idx as int),
    {
        let byte_idx = piece_idx / 8;
        if byte_idx < self.bytes.len() {
            let bit = (piece_idx % 8) as u8;
            let old_byte = self.bytes[byte_idx];
            self.bytes.set(byte_idx, old_byte | (0x80u8 >> bit));
            proof {
                assert(self@ =~= set_bit(old(self)@, piece_idx as int));
            }
        }
    }

    /// The marked pieces, in ascending order.
    pub fn pieces(&self) -> (r: Vec<usize>)
        requires
            self@.len() * 8 <= usize::MAX,
        ensures
            forall|a: int, b: int| 0 <= a < b < r@.len() ==> r@[a] < r@[b],
            forall|i: int| 0 <= i < r@.len() ==> bit_at(self@, r@[i] as int),
            forall|i: int| bit_at(self@, i) ==> r@.contains(i as usize),
    {
        let mut out: Vec<usize> = Vec::new();
        let mut i: usize = 0;
        let total: usize = self.bytes.len() * 8;
        while i < total
            invariant
                total == self@.len() * 8,
                i <= total,
                forall|a: int, b: int| 0 <= a < b < out@.len() ==> out@[a] < out@[b],
                forall|k: int| 0 <= k < out@.len() ==> out@[k] < i,
                forall|k: int| 0 <= k < out@.len() ==> bit_at(self@, out@[k] as int),
                forall|j: int| 0 <= j < i && bit_at(self@, j) ==> out@.contains(j as usize),
            decreases total - i,
        {
            let ghost before = out@;
            if self.has_piece(i) {
                out.push(i);
                proof {
                    assert(out@[out@.len() - 1] == i);
                }
            }
            proof {
                assert forall|j: int| 0 <= j < i + 1 && bit_at(self@, j) implies out@.contains(
                    j as usize,
                ) by {
                    if j == i {
                        assert(out@[out@.len() - 1] == i);
                    } else {
                        let k = choose|k: int| 0 <= k < before.len() && before[k] == j as usize;
                        assert(out@[k] == j as usize);
                    }
                }
            }
            i = i + 1;
        }
        out
    }
}

} // verus!
