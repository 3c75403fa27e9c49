use vstd::prelude::*;
use vstd::string::StringExecFns;

use crate::ids::PeerId;
use crate::piece::TorrentFile;

verus! {

/// An IPv4 peer address as a tracker lists it.
#[derive(Debug, Clone, Copy, PartialEq, Eq)]
pub struct PeerAddress {
    pub ip: [u8; 4],
    pub port: u16,
}

/// The number two big-endian bytes hold.
pub open spec fn be_u16(hi: u8, lo: u8) -> int {
    hi as int * 256 + lo as int
}

/// Whether `p` is the peer that the six bytes of `buf` from `at` on describe.
pub open spec fn compact_peer(buf: Seq<u8>, at: int, p: PeerAddress) -> bool {
    &&& p.ip@ == buf.subrange(at, at + 4)
    &&& p.port as int == be_u16(buf[at + 4], buf[at + 5])
}

/// Reads a compact peer list: six bytes per peer, four of IPv4 address and
/// two of big-endian port. A trailing group shorter than six is ignored.
pub fn parse_compact_peers(buf: &[u8]) -> (r: Vec<PeerAddress>)
    ensures
        r@.len() == buf@.len() / 6,
        forall|k: int| 0 <= k < r@.len() ==> compact_peer(buf@, 6 * k, #[trigger] r@[k]),
{
    let mut out: Vec<PeerAddress> = Vec::new();
    let len = buf.len();
    let n = len / 6;
    let mut k: usize = 0;
    while k < n
        invariant
            len == buf@.len(),
            n == buf@.len() / 6,
            k <= n,
            out@.len() == k,
            forall|j: int| 0 <= j < k ==> compact_peer(buf@, 6 * j, #[trigger] out@[j]),
        decreases n - k,
    {
        assert(6 * k + 6 <= len);
        let at = 6 * k;
        let ip: [u8; 4] = [buf[at], buf[at + 1], buf[at + 2], buf[at + 3]];
        let port: u16 = (buf[at + 4] as u16) * 256 + (buf[at + 5] as u16);
        let p = PeerAddress { ip, port };
        proof {
            assert(p.ip@ =~= buf@.subrange(at as int, at + 4));
        }
        out.push(p);
        k = k + 1;
    }
    out
}

/// The lowercase hexadecimal digit for `d`, below 16.
pub open spec fn hex_digit(d: int) -> char {
    if d < 10 {
        (48 + d) as char
    } else {
        (87 + d) as char
    }
}

/// Each byte as `%` and its two lowercase hexadecimal digits.
pub open spec fn percent_encoded(bytes: Seq<u8>) -> Seq<char>
    decreases bytes.len(),
{
    if bytes.len() == 0 {
        Seq::empty()
    } else {
        let b = bytes.last();
        percent_encoded(bytes.drop_last()) + seq!['%', hex_digit(b as int / 16), hex_digit(b as int % 16)]
    }
}

/// Relies on hex::encode: each byte becomes two lowercase hexadecimal digits,
/// high half first.
#[verifier::external_body]
fn hex_byte(b: u8) -> (r: String)
    ensures
        r@ == seq![hex_digit(b as int / 16), hex_digit(b as int % 16)],
{
    hex::encode([b])
}

/// Percent-encodes every byte, as the info-hash travels in an announce URL.
pub fn urlencode(bytes: &[u8]) -> (r: String)
    ensures
        r@ == percent_encoded(bytes@),
{
    let mut s = String::from_str("");
    proof {
        reveal_strlit("");
        reveal_strlit("%");
        assert(bytes@.subrange(0, 0) =~= Seq::<u8>::empty());
    }
    let mut i: usize = 0;
    while i < bytes.len()
        invariant
            i <= bytes@.len(),
            s@ == percent_encoded(bytes@.subrange(0, i as int)),
        decreases bytes@.len() - i,
    {
        s.append("%");
        let h = hex_byte(bytes[i]);
        s.append(h.as_str());
        proof {
            reveal_strlit("%");
            let next = bytes@.subrange(0, i + 1);
            assert(next.drop_last() =~= bytes@.subrange(0, i as int));
            assert(s@ =~= percent_encoded(next));
        }
        i = i + 1;
    }
    proof {
        assert(bytes@.subrange(0, bytes@.len() as int) =~= bytes@);
    }
    s
}

/// The decimal digits of `n`.
pub open spec fn decimal(n: nat) -> Seq<char>
    decreases n,
{
    if n < 10 {
        seq![(48 + n) as char]
    } else {
        decimal(n / 10) + seq![(48 + n % 10) as char]
    }
}

/// Relies on `u64`'s `to_string`: its decimal digits, without sign or padding.
#[verifier::external_body]
fn decimal_string(n: u64) -> (r: String)
    ensures
        r@ == decimal(n as nat),
{
    n.to_string()
}

/// Whether every byte is below 128.
pub open spec fn all_ascii(bytes: Seq<u8>) -> bool {
    forall|k: int| 0 <= k < bytes.len() ==> bytes[k] < 128
}

/// Whether every byte is below 128.
fn ascii_only(bytes: &Vec<u8>) -> (r: bool)
    ensures
        r == all_ascii(bytes@),
{
    let mut i: usize = 0;
    while i < bytes.len()
        invariant
            i <= bytes@.len(),
            forall|k: int| 0 <= k < i ==> bytes@[k] < 128,
        decreases bytes@.len() - i,
    {
        if bytes[i] >= 128 {
            return false;
        }
        i = i + 1;
    }
    true
}

/// The characters of an ASCII byte string.
pub open spec fn ascii_chars(bytes: Seq<u8>) -> Seq<char> {
    bytes.map_values(|b: u8| b as char)
}

/// Relies on `String::from_utf8`: it accepts valid UTF-8, which every ASCII
/// byte string is, and the string it returns has those bytes.
#[verifier::external_body]
fn utf8_string(bytes: Vec<u8>) -> (r: Option<String>)
    ensures
        all_ascii(bytes@) ==> r is Some && r->Some_0@ == ascii_chars(bytes@),
{
    String::from_utf8(bytes).ok()
}

/// The `application/x-www-form-urlencoded` text of these key-value pairs.
pub uninterp spec fn form_encoded(pairs: Seq<(Seq<char>, Seq<char>)>) -> Seq<char>;

/// The key-value pairs as character sequences.
pub open spec fn pairs_view(pairs: Seq<(String, String)>) -> Seq<(Seq<char>, Seq<char>)> {
    pairs.map_values(|p: (String, String)| (p.0@, p.1@))
}

/// Relies on serde_urlencoded::to_string: the form encoding of a sequence of
/// string pairs, which depends on the pairs alone. On string pairs its
/// serializer has no error path.
#[verifier::external_body]
fn form_encode(pairs: &Vec<(String, String)>) -> (r: String)
    ensures
        r@ == form_encoded(pairs_view(pairs@)),
{
    match serde_urlencoded::to_string(pairs) {
        Ok(s) => s,
        Err(_) => String::new(),
    }
}

/// The query of an announce request, but for the info-hash.
pub struct HttpTrackerRequest {
    peer_id: String,
    port: u16,
    uploaded: usize,
    downloaded: usize,
    left: usize,
    compact: u8,
}

/// The announce query's pairs, in the order they are sent.
pub open spec fn request_pairs(
    peer_id: Seq<char>,
    port: nat,
    uploaded: nat,
    downloaded: nat,
    left: nat,
    compact: nat,
) -> Seq<(Seq<char>, Seq<char>)> {
    seq![
        ("peer_id"@, peer_id),
        ("port"@, decimal(port)),
        ("uploaded"@, decimal(uploaded)),
        ("downloaded"@, decimal(downloaded)),
        ("left"@, decimal(left)),
        ("compact"@, decimal(compact)),
    ]
}

fn pair(key: &str, value: String) -> (r: (String, String))
    ensures
        r.0@ == key@,
        r.1@ == value@,
{
    (String::from_str(key), value)
}

impl HttpTrackerRequest {
    /// The peer-id sent.
    pub closed spec fn spec_peer_id(&self) -> Seq<char> {
        self.peer_id@
    }

    /// The port reported.
    pub closed spec fn spec_port(&self) -> u16 {
        self.port
    }

    /// The bytes left to download.
    pub closed spec fn spec_left(&self) -> usize {
        self.left
    }

    /// The bytes uploaded so far.
    pub closed spec fn spec_uploaded(&self) -> usize {
        self.uploaded
    }

    /// The bytes downloaded so far.
    pub closed spec fn spec_downloaded(&self) -> usize {
        self.downloaded
    }

    /// Whether a compact peer list is asked for (1) or not (0).
    pub closed spec fn spec_compact(&self) -> u8 {
        self.compact
    }

    /// The first announce of a download of `torrent`: nothing uploaded or
    /// downloaded yet, the whole file left, a compact peer list asked for.
    /// `None` when the peer-id is not ASCII text.
    pub fn new(torrent: &TorrentFile, peer_id: &PeerId, port: u16) -> (r: Option<Self>)
        ensures
            r is Some <==> all_ascii(peer_id@),
            r matches Some(q) ==> {
                &&& q.spec_peer_id() == ascii_chars(peer_id@)
                &&& q.spec_port() == port
                &&& q.spec_uploaded() == 0
                &&& q.spec_downloaded() == 0
                &&& q.spec_left() == torrent.length
                &&& q.spec_compact() == 1
            },
    {
        let bytes = peer_id.to_vec();
        if !ascii_only(&bytes) {
            return None;
        }
        match utf8_string(bytes) {
            Some(id) => Some(
                HttpTrackerRequest {
                    peer_id: id,
                    port,
                    uploaded: 0,
                    downloaded: 0,
                    left: torrent.length,
                    compact: 1,
                },
            ),
            None => None,
        }
    }

    /// The pairs of this request's query, in the order they are sent.
    pub fn pairs(&self) -> (r: Vec<(String, String)>)
        ensures
            pairs_view(r@) == request_pairs(
                self.spec_peer_id(),
                self.spec_port() as nat,
                self.spec_uploaded() as nat,
                self.spec_downloaded() as nat,
                self.spec_left() as nat,
                self.spec_compact() as nat,
            ),
    {
        let mut v: Vec<(String, String)> = Vec::new();
        v.push(pair("peer_id", self.peer_id.clone()));
        v.push(pair("port", decimal_string(self.port as u64)));
        v.push(pair("uploaded", decimal_string(self.uploaded as u64)));
        v.push(pair("downloaded", decimal_string(self.downloaded as u64)));
        v.push(pair("left", decimal_string(self.left as u64)));
        v.push(pair("compact", decimal_string(self.compact as u64)));
        proof {
            assert(pairs_view(v@) =~= request_pairs(
                self.spec_peer_id(),
                self.spec_port() as nat,
                self.spec_uploaded() as nat,
                self.spec_downloaded() as nat,
                self.spec_left() as nat,
                self.spec_compact() as nat,
            ));
        }
        v
    }
}

/// The announce URL: the tracker's address, `?`, the encoded query, then
/// the info-hash, percent-encoded byte by byte, last.
pub open spec fn announce_url_spec(announce: Seq<char>, query: Seq<char>, info_hash: Seq<u8>) -> Seq<
    char,
> {
    announce + "?"@ + query + "&info_hash="@ + percent_encoded(info_hash)
}

/// Joins the announce address, an encoded query and the info-hash into the
/// URL of an announce request.
pub fn join_announce_url(announce: &str, query: &str, info_hash: &[u8]) -> (r: String)
    ensures
        r@ == announce_url_spec(announce@, query@, info_hash@),
{
    let mut url = String::from_str(announce);
    url.append("?");
    url.append(query);
    url.append("&info_hash=");
    let encoded = urlencode(info_hash);
    url.append(encoded.as_str());
    url
}

/// Why no announce URL could be built.
#[derive(Debug, Clone, Copy, PartialEq, Eq, Structural)]
pub enum AnnounceError {
    /// The metainfo names no tracker.
    MissingAnnounce,
    /// The peer-id is not ASCII text.
    BadPeerId,
}

/// The URL of the first announce for `torrent`, made as `peer_id`, listening
/// on `port`.
pub fn announce_url(torrent: &TorrentFile, peer_id: &PeerId, port: u16) -> (r: Result<
    String,
    AnnounceError,
>)
    ensures
        torrent.announce is None ==> r == Err::<String, AnnounceError>(
            AnnounceError::MissingAnnounce,
        ),
        r is Ok <==> torrent.announce is Some && all_ascii(peer_id@),
        torrent.announce is Some && !all_ascii(peer_id@) ==> r == Err::<String, AnnounceError>(
            AnnounceError::BadPeerId,
        ),
        r matches Ok(u) ==> torrent.announce matches Some(a) && u@ == announce_url_spec(
            a@,
            form_encoded(
                request_pairs(
                    ascii_chars(peer_id@),
                    port as nat,
                    0,
                    0,
                    torrent.length as nat,
                    1,
                ),
            ),
            torrent.info_hash@,
        ),
{
    let announce = match &torrent.announce {
        Some(a) => a,
        None => {
            return Err(AnnounceError::MissingAnnounce);
        },
    };
    let request = match HttpTrackerRequest::new(torrent, peer_id, port) {
        Some(q) => q,
        None => {
            return Err(AnnounceError::BadPeerId);
        },
    };
    let pairs = request.pairs();
    let query = form_encode(&pairs);
    Ok(join_announce_url(announce.as_str(), query.as_str(), torrent.info_hash.as_slice()))
}

/// The kinds of tracker this client can ask for peers.
#[derive(Debug, Clone, Copy, PartialEq, Eq, Structural)]
pub enum TrackerKind {
    Http,
    Udp,
}

/// The tracker kind for a URL scheme: `http` and `https` are HTTP
/// trackers, `udp` a UDP one; any other scheme is unsupported (`None`).
pub fn tracker_kind(scheme: &String) -> (r: Option<TrackerKind>)
    ensures
        r == (if scheme@ == "http"@ || scheme@ == "https"@ {
            Some(TrackerKind::Http)
        } else if scheme@ == "udp"@ {
            Some(TrackerKind::Udp)
        } else {
            None::<TrackerKind>
        }),
{
    if *scheme == String::from_str("http") || *scheme == String::from_str("https") {
        Some(TrackerKind::Http)
    } else if *scheme == String::from_str("udp") {
        Some(TrackerKind::Udp)
    } else {
        None
    }
}

/// The scheme of a URL as the `url` crate reads it; `None` when the text does
/// not parse as a URL.
pub uninterp spec fn scheme_of(url: Seq<char>) -> Option<Seq<char>>;

/// Relies on url's `Url::parse` and `Url::scheme`: `None` exactly when the
/// text is no URL, otherwise its scheme; both depend on the text alone.
#[verifier::external_body]
fn url_scheme(url: &str) -> (r: Option<String>)
    ensures
        r is Some <==> scheme_of(url@) is Some,
        r matches Some(s) ==> scheme_of(url@) == Some(s@),
{
    match url::Url::parse(url) {
        Ok(u) => Some(u.scheme().to_string()),
        Err(_) => None,
    }
}

/// The tracker kind that an announce URL's parsed scheme selects: an error
/// for a URL that does not parse or a scheme that is not supported.
pub open spec fn kind_for_scheme(scheme: Option<Seq<char>>) -> Result<TrackerKind, TrackerError> {
    match scheme {
        None => Err(TrackerError::BadUrl),
        Some(sc) => if sc == "http"@ || sc == "https"@ {
            Ok(TrackerKind::Http)
        } else if sc == "udp"@ {
            Ok(TrackerKind::Udp)
        } else {
            Err(TrackerError::UnsupportedScheme)
        },
    }
}

/// Why no tracker can be asked.
#[derive(Debug, Clone, Copy, PartialEq, Eq, Structural)]
pub enum TrackerError {
    /// The metainfo names no tracker.
    MissingAnnounce,
    /// The announce URL does not parse.
    BadUrl,
    /// The announce URL's scheme is neither HTTP(S) nor UDP.
    UnsupportedScheme,
}

/// Which tracker the metainfo's announce URL names.
pub fn announce_tracker_kind(torrent: &TorrentFile) -> (r: Result<TrackerKind, TrackerError>)
    ensures
        torrent.announce is None ==> r == Err::<TrackerKind, TrackerError>(
            TrackerError::MissingAnnounce,
        ),
        torrent.announce matches Some(a) ==> r == kind_for_scheme(scheme_of(a@)),
{
    let announce = match &torrent.announce {
        Some(a) => a,
        None => {
            return Err(TrackerError::MissingAnnounce);
        },
    };
    match url_scheme(announce.as_str()) {
        Some(scheme) => match tracker_kind(&scheme) {
            Some(k) => Ok(k),
            None => Err(TrackerError::UnsupportedScheme),
        },
        None => Err(TrackerError::BadUrl),
    }
}

/// What a tracker answered: how long to wait before asking again, and peers.
pub struct TrackerResponse {
    pub interval: usize,
    pub peers: Vec<PeerAddress>,
}

/// What a tracker's bencoded reply says: an interval and the peers (`None`
/// for one that is not IPv4), or the reason it refused.
pub enum ReplyView {
    Success { interval: i64, peers: Seq<Option<PeerAddress>> },
    Failure { reason: Seq<char> },
}

/// A tracker's decoded reply.
pub enum TrackerReply {
    Success { interval: i64, peers: Vec<Option<PeerAddress>> },
    Failure { reason: String },
}

impl View for TrackerReply {
    type V = ReplyView;

    open spec fn view(&self) -> ReplyView {
        match self {
            TrackerReply::Success { interval, peers } => ReplyView::Success {
                interval: *interval,
                peers: peers@,
            },
            TrackerReply::Failure { reason } => ReplyView::Failure { reason: reason@ },
        }
    }
}

/// The IPv4 peers, in order.
pub open spec fn ipv4_peers(s: Seq<Option<PeerAddress>>) -> Seq<PeerAddress>
    decreases s.len(),
{
    if s.len() == 0 {
        Seq::empty()
    } else {
        let rest = ipv4_peers(s.drop_last());
        match s.last() {
            Some(p) => rest.push(p),
            None => rest,
        }
    }
}

/// Why a tracker's reply gave no peers.
#[derive(Debug, Clone, PartialEq, Eq)]
pub enum ReplyError {
    /// The reply's interval is negative or too large.
    BadInterval(i64),
    /// The tracker refused, for this reason.
    Failure(String),
}

/// Whether `r` is what a decoded reply gives: its interval and its IPv4
/// peers in order; an error for an interval out of range or a refusal.
pub open spec fn response_of_reply(v: ReplyView, r: Result<TrackerResponse, ReplyError>) -> bool {
    match v {
        ReplyView::Success { interval, peers } => if interval < 0 || interval > usize::MAX {
            match r {
                Err(ReplyError::BadInterval(i)) => i == interval,
                _ => false,
            }
        } else {
            match r {
                Ok(t) => t.interval as int == interval as int && t.peers@ == ipv4_peers(peers),
                Err(_) => false,
            }
        },
        ReplyView::Failure { reason } => match r {
            Err(ReplyError::Failure(s)) => s@ == reason,
            _ => false,
        },
    }
}

impl TrackerResponse {
    /// The response a decoded reply gives: its interval and its IPv4 peers in
    /// order; an error for a refusal or an interval out of range.
    pub fn from_reply(reply: TrackerReply) -> (r: Result<TrackerResponse, ReplyError>)
        ensures
            response_of_reply(reply@, r),
    {
        match reply {
            TrackerReply::Failure { reason } => {
                Err(ReplyError::Failure(reason))
            },
            TrackerReply::Success { interval, peers } => {
                if interval < 0 || interval as u64 > usize::MAX as u64 {
                    return Err(ReplyError::BadInterval(interval));
                }
                let mut out: Vec<PeerAddress> = Vec::new();
                let mut i: usize = 0;
                while i < peers.len()
                    invariant
                        i <= peers@.len(),
                        out@ == ipv4_peers(peers@.subrange(0, i as int)),
                    decreases peers@.len() - i,
                {
                    proof {
                        assert(peers@.subrange(0, i + 1).drop_last() =~= peers@.subrange(
                            0,
                            i as int,
                        ));
                    }
                    match peers[i] {
                        Some(p) => out.push(p),
                        None => {},
                    }
                    i = i + 1;
                }
                proof {
                    assert(peers@.subrange(0, peers@.len() as int) =~= peers@);
                }
                Ok(TrackerResponse { interval: interval as usize, peers: out })
            },
        }
    }
}

} // verus!
