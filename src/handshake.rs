use vstd::prelude::*;

verus! {

/// The protocol name a handshake carries after its length byte.
pub const BITTORRENT_PROTOCOL: [u8; 19] = [
    66, 105, 116, 84, 111, 114, 114, 101, 110, 116, 32, 112, 114, 111, 116, 111, 99, 111, 108,
];

/// "BitTorrent protocol" as bytes.
pub open spec fn protocol_spec() -> Seq<u8> {
    seq![66u8, 105, 116, 84, 111, 114, 114, 101, 110, 116, 32, 112, 114, 111, 116, 111, 99, 111, 108]
}

/// The 68 bytes of a handshake with these fields, in wire order.
pub open spec fn handshake_layout(
    length: u8,
    protocol: Seq<u8>,
    reserve: Seq<u8>,
    info_hash: Seq<u8>,
    peer_id: Seq<u8>,
) -> Seq<u8> {
    seq![length] + protocol + reserve + info_hash + peer_id
}

/// The opening message that binds a connection to one torrent.
pub struct Handshake {
    pub length: u8,
    pub bittorrent: [u8; 19],
    pub reserve: [u8; 8],
    pub info_hash: [u8; 20],
    pub peer_id: [u8; 20],
}

impl Handshake {
    /// The wire bytes of this handshake.
    pub open spec fn bytes_spec(&self) -> Seq<u8> {
        handshake_layout(
            self.length,
            self.bittorrent@,
            self.reserve@,
            self.info_hash@,
            self.peer_id@,
        )
    }
}

/// Writes `src` into `out` from position `at` on.
fn put_bytes(out: &mut [u8; 68], at: usize, src: &[u8])
    requires
        at + src@.len() <= 68,
    ensures
        final(out)@ == old(out)@.subrange(0, at as int) + src@ + old(out)@.subrange(
            at + src@.len(),
            68,
        ),
{
    let mut i: usize = 0;
    while i < src.len()
        invariant
            at + src@.len() <= 68,
            i <= src@.len(),
            out@.len() == 68,
            out@ == old(out)@.subrange(0, at as int) + src@.subrange(0, i as int) + old(
                out,
            )@.subrange(at + i, 68),
        decreases src@.len() - i,
    {
        out.set(at + i, src[i]);
        proof {
            assert(out@ =~= old(out)@.subrange(0, at as int) + src@.subrange(0, i + 1) + old(
                out,
            )@.subrange(at + i + 1, 68));
        }
        i = i + 1;
    }
    proof {
        assert(src@.subrange(0, i as int) =~= src@);
    }
}

fn take19(bytes: &[u8; 68], at: usize) -> (r: [u8; 19])
    requires
        at + 19 <= 68,
    ensures
        r@ == bytes@.subrange(at as int, at + 19),
{
    let mut r = [0u8; 19];
    let mut i: usize = 0;
    while i < 19
        invariant
            i <= 19,
            r@.len() == 19,
            at + 19 <= 68,
            forall|k: int| 0 <= k < i ==> r@[k] == bytes@[at + k],
        decreases 19 - i,
    {
        r[i] = bytes[at + i];
        i = i + 1;
    }
    proof {
        assert(r@ =~= bytes@.subrange(at as int, at + 19));
    }
    r
}

fn take8(bytes: &[u8; 68], at: usize) -> (r: [u8; 8])
    requires
        at + 8 <= 68,
    ensures
        r@ == bytes@.subrange(at as int, at + 8),
{
    let mut r = [0u8; 8];
    let mut i: usize = 0;
    while i < 8
        invariant
            i <= 8,
            r@.len() == 8,
            at + 8 <= 68,
            forall|k: int| 0 <= k < i ==> r@[k] == bytes@[at + k],
        decreases 8 - i,
    {
        r[i] = bytes[at + i];
        i = i + 1;
    }
    proof {
        assert(r@ =~= bytes@.subrange(at as int, at + 8));
    }
    r
}

fn take20(bytes: &[u8; 68], at: usize) -> (r: [u8; 20])
    requires
        at + 20 <= 68,
    ensures
        r@ == bytes@.subrange(at as int, at + 20),
{
    let mut r = [0u8; 20];
    let mut i: usize = 0;
    while i < 20
        invariant
            i <= 20,
            r@.len() == 20,
            at + 20 <= 68,
            forall|k: int| 0 <= k < i ==> r@[k] == bytes@[at + k],
        decreases 20 - i,
    {
        r[i] = bytes[at + i];
        i = i + 1;
    }
    proof {
        assert(r@ =~= bytes@.subrange(at as int, at + 20));
    }
    r
}

impl Handshake {
    /// Our handshake for the torrent `info_hash`, sent as `peer_id`.
    pub fn new(info_hash: &[u8; 20], peer_id: &[u8; 20]) -> (r: Self)
        ensures
            r.length == 19,
            r.bittorrent@ == protocol_spec(),
            r.reserve@ == seq![0u8, 0, 0, 0, 0, 0, 0, 0],
            r.info_hash@ == info_hash@,
            r.peer_id@ == peer_id@,
    {
        let r = Handshake {
            length: 19,
            bittorrent: BITTORRENT_PROTOCOL,
            reserve: [0u8; 8],
            info_hash: *info_hash,
            peer_id: *peer_id,
        };
        proof {
            assert(r.bittorrent@ =~= protocol_spec());
            assert(r.reserve@ =~= seq![0u8, 0, 0, 0, 0, 0, 0, 0]);
        }
        r
    }

    /// The 68 bytes of this handshake.
    pub fn get_bytes(&self) -> (r: [u8; 68])
        ensures
            r@ == self.bytes_spec(),
    {
        let mut arr = [0u8; 68];
        arr[0] = self.length;
        put_bytes(&mut arr, 1, self.bittorrent.as_slice());
        put_bytes(&mut arr, 20, self.reserve.as_slice());
        put_bytes(&mut arr, 28, self.info_hash.as_slice());
        put_bytes(&mut arr, 48, self.peer_id.as_slice());
        proof {
            assert(arr@ =~= self.bytes_spec());
        }
        arr
    }

    /// Takes every field from the 68 bytes of a received handshake.
    pub fn set_bytes(&mut self, bytes: &[u8; 68])
        ensures
            final(self).length == bytes@[0],
            final(self).bittorrent@ == bytes@.subrange(1, 20),
            final(self).reserve@ == bytes@.subrange(20, 28),
            final(self).info_hash@ == bytes@.subrange(28, 48),
            final(self).peer_id@ == bytes@.subrange(48, 68),
    {
        self.length = bytes[0];
        self.bittorrent = take19(bytes, 1);
        self.reserve = take8(bytes, 20);
        self.info_hash = take20(bytes, 28);
        self.peer_id = take20(bytes, 48);
    }

    /// Whether a peer's reply may be accepted for the torrent `info_hash`:
    /// the length byte is 19, the protocol name matches, and the info-hash is ours.
    pub fn accepts(&self, info_hash: &[u8; 20]) -> (r: bool)
        ensures
            r == (self.length == 19 && self.bittorrent@ == protocol_spec() && self.info_hash@
                == info_hash@),
    {
        if self.length != 19 {
            return false;
        }
        let mut i: usize = 0;
        while i < 19
            invariant
                i <= 19,
                forall|k: int| 0 <= k < i ==> self.bittorrent@[k] == protocol_spec()[k],
            decreases 19 - i,
        {
            if self.bittorrent[i] != BITTORRENT_PROTOCOL[i] {
                return false;
            }
            i = i + 1;
        }
        let mut j: usize = 0;
        while j < 20
            invariant
                j <= 20,
                self.bittorrent@ == protocol_spec(),
                forall|k: int| 0 <= k < j ==> self.info_hash@[k] == info_hash@[k],
            decreases 20 - j,
        {
            if self.info_hash[j] != info_hash[j] {
                return false;
            }
            j = j + 1;
        }
        proof {
            assert(self.bittorrent@ =~= protocol_spec());
            assert(self.info_hash@ =~= info_hash@);
        }
        true
    }
}

/// Reading the fields back from a handshake's bytes gives the fields, and
/// writing read fields gives the bytes back.
pub proof fn lemma_handshake_round_trip(
    length: u8,
    protocol: Seq<u8>,
    reserve: Seq<u8>,
    info_hash: Seq<u8>,
    peer_id: Seq<u8>,
    bytes: Seq<u8>,
)
    requires
        protocol.len() == 19,
        reserve.len() == 8,
        info_hash.len() == 20,
        peer_id.len() == 20,
        bytes.len() == 68,
    ensures
        ({
            let b = handshake_layout(length, protocol, reserve, info_hash, peer_id);
            &&& b.len() == 68
            &&& b[0] == length
            &&& b.subrange(1, 20) == protocol
            &&& b.subrange(20, 28) == reserve
            &&& b.subrange(28, 48) == info_hash
            &&& b.subrange(48, 68) == peer_id
        }),
        handshake_layout(
            bytes[0],
            bytes.subrange(1, 20),
            bytes.subrange(20, 28),
            bytes.subrange(28, 48),
            bytes.subrange(48, 68),
        ) == bytes,
{
    let b = handshake_layout(length, protocol, reserve, info_hash, peer_id);
    assert(b.subrange(1, 20) =~= protocol);
    assert(b.subrange(20, 28) =~= reserve);
    assert(b.subrange(28, 48) =~= info_hash);
    assert(b.subrange(48, 68) =~= peer_id);
    assert(handshake_layout(
        bytes[0],
        bytes.subrange(1, 20),
        bytes.subrange(20, 28),
        bytes.subrange(28, 48),
        bytes.subrange(48, 68),
    ) =~= bytes);
}

} // verus!
