use rand::Rng;
use vstd::prelude::*;

verus! {

/// Why a byte string could not serve as a 20-byte identifier.
#[derive(Debug, Clone, Copy, PartialEq, Eq, Structural)]
pub enum IdError {
    /// The bytes had this length instead of 20.
    BadLength(usize),
}

/// The first eight bytes of every peer-id this client makes: "-PVR001-".
pub open spec fn client_prefix() -> Seq<u8> {
    seq![45u8, 80, 86, 82, 48, 48, 49, 45]
}

const CLIENT_PREFIX: [u8; 8] = [45, 80, 86, 82, 48, 48, 49, 45];

/// Whether `b` is a lowercase ASCII letter.
pub open spec fn is_lowercase_letter(b: u8) -> bool {
    97 <= b <= 122
}

/// A 20-byte SHA-1 digest, as the metainfo lists one per piece.
pub struct Hash {
    hash: Vec<u8>,
}

impl View for Hash {
    type V = Seq<u8>;

    closed spec fn view(&self) -> Seq<u8> {
        self.hash@
    }
}

impl Hash {
    #[verifier::type_invariant]
    spec fn inv(&self) -> bool {
        self.hash@.len() == 20
    }

    /// The digest held in `hash`, which must be 20 bytes long.
    pub fn new(hash: Vec<u8>) -> (r: Result<Self, IdError>)
        ensures
            hash@.len() == 20 <==> r is Ok,
            r matches Ok(h) ==> h@ == hash@,
            r matches Err(e) ==> e == IdError::BadLength(hash@.len() as usize),
    {
        if hash.len() != 20 {
            return Err(IdError::BadLength(hash.len()));
        }
        Ok(Hash { hash })
    }

    /// The digest's bytes.
    pub fn to_vec(&self) -> (r: Vec<u8>)
        ensures
            r@ == self@,
            r@.len() == 20,
    {
        proof {
            use_type_invariant(self);
        }
        copy_bytes(&self.hash)
    }

    /// The digest's bytes as an array.
    pub fn to_arr(&self) -> (r: [u8; 20])
        ensures
            r@ == self@,
            r@.len() == 20,
    {
        proof {
            use_type_invariant(self);
        }
        to_array20(&self.hash)
    }
}

/// The 20-byte identity of a torrent.
pub struct InfoHash {
    bytes: Vec<u8>,
}

impl View for InfoHash {
    type V = Seq<u8>;

    closed spec fn view(&self) -> Seq<u8> {
        self.bytes@
    }
}

impl InfoHash {
    #[verifier::type_invariant]
    spec fn inv(&self) -> bool {
        self.bytes@.len() == 20
    }

    /// The info-hash held in `info_hash_bytes`, which must be 20 bytes long.
    pub fn new(info_hash_bytes: Vec<u8>) -> (r: Result<Self, IdError>)
        ensures
            info_hash_bytes@.len() == 20 <==> r is Ok,
            r matches Ok(h) ==> h@ == info_hash_bytes@,
            r matches Err(e) ==> e == IdError::BadLength(info_hash_bytes@.len() as usize),
    {
        if info_hash_bytes.len() != 20 {
            return Err(IdError::BadLength(info_hash_bytes.len()));
        }
        Ok(InfoHash { bytes: info_hash_bytes })
    }

    /// The info-hash as an array.
    pub fn to_arr(&self) -> (r: [u8; 20])
        ensures
            r@ == self@,
            r@.len() == 20,
    {
        proof {
            use_type_invariant(self);
        }
        to_array20(&self.bytes)
    }
}

/// The 20 bytes by which this client names itself to trackers and peers.
pub struct PeerId {
    bytes: Vec<u8>,
}

impl View for PeerId {
    type V = Seq<u8>;

    closed spec fn view(&self) -> Seq<u8> {
        self.bytes@
    }
}

/// Relies on rand's `thread_rng().gen_range(b'a'..=b'z')`: a byte drawn from
/// the inclusive range of lowercase letters.
#[verifier::external_body]
fn random_lowercase() -> (r: u8)
    ensures
        is_lowercase_letter(r),
{
    rand::thread_rng().gen_range(b'a'..=b'z')
}

impl PeerId {
    #[verifier::type_invariant]
    spec fn inv(&self) -> bool {
        self.bytes@.len() == 20
    }

    /// A fresh peer-id: the client prefix, then twelve random lowercase letters.
    pub fn generate() -> (r: Self)
        ensures
            r@.len() == 20,
            r@.subrange(0, 8) == client_prefix(),
            forall|k: int| 8 <= k < 20 ==> is_lowercase_letter(#[trigger] r@[k]),
    {
        let mut bytes: Vec<u8> = Vec::with_capacity(20);
        let mut i: usize = 0;
        while i < 8
            invariant
                i <= 8,
                bytes@ == client_prefix().subrange(0, i as int),
            decreases 8 - i,
        {
            bytes.push(CLIENT_PREFIX[i]);
            proof {
                assert(bytes@ =~= client_prefix().subrange(0, i + 1));
            }
            i = i + 1;
        }
        while bytes.len() < 20
            invariant
                8 <= bytes@.len() <= 20,
                bytes@.subrange(0, 8) == client_prefix(),
                forall|k: int| 8 <= k < bytes@.len() ==> is_lowercase_letter(#[trigger] bytes@[k]),
            decreases 20 - bytes@.len(),
        {
            let c = random_lowercase();
            let ghost before = bytes@;
            bytes.push(c);
            proof {
                assert(bytes@.subrange(0, 8) =~= before.subrange(0, 8));
            }
        }
        PeerId { bytes }
    }

    /// The peer-id held in `bytes`, which must be 20 bytes long.
    pub fn from_bytes(bytes: Vec<u8>) -> (r: Result<Self, IdError>)
        ensures
            bytes@.len() == 20 <==> r is Ok,
            r matches Ok(p) ==> p@ == bytes@,
            r matches Err(e) ==> e == IdError::BadLength(bytes@.len() as usize),
    {
        if bytes.len() != 20 {
            return Err(IdError::BadLength(bytes.len()));
        }
        Ok(PeerId { bytes })
    }

    /// The peer-id's bytes.
    pub fn to_vec(&self) -> (r: Vec<u8>)
        ensures
            r@ == self@,
    {
        copy_bytes(&self.bytes)
    }

    /// The peer-id's bytes as an array.
    pub fn to_arr(&self) -> (r: [u8; 20])
        ensures
            r@ == self@,
            r@.len() == 20,
    {
        proof {
            use_type_invariant(self);
        }
        to_array20(&self.bytes)
    }
}

/// A copy of the bytes.
pub fn copy_bytes(v: &Vec<u8>) -> (r: Vec<u8>)
    ensures
        r@ == v@,
{
    let mut out: Vec<u8> = Vec::new();
    let mut i: usize = 0;
    while i < v.len()
        invariant
            i <= v@.len(),
            out@ == v@.subrange(0, i as int),
        decreases v@.len() - i,
    {
        out.push(v[i]);
        proof {
            assert(out@ =~= v@.subrange(0, i + 1));
        }
        i = i + 1;
    }
    proof {
        assert(out@ =~= v@);
    }
    out
}

/// The 20 bytes of `v` as an array.
fn to_array20(v: &Vec<u8>) -> (r: [u8; 20])
    requires
        v@.len() == 20,
    ensures
        r@ == v@,
{
    let mut r = [0u8; 20];
    let mut i: usize = 0;
    while i < 20
        invariant
            i <= 20,
            r@.len() == 20,
            v@.len() == 20,
            forall|k: int| 0 <= k < i ==> r@[k] == v@[k],
        decreases 20 - i,
    {
        r[i] = v[i];
        i = i + 1;
    }
    proof {
        assert(r@ =~= v@);
    }
    r
}

} // verus!
