use vstd::prelude::*;

use crate::bigendian::{
    be_u32, copy_range, lemma_be_injective, lemma_be_round_trip, push_range, push_u32_be,
    read_u32_be, u32_be,
};
use crate::bitfield::Bitfield;

verus! {

/// What a peer-wire message says, with its byte strings as sequences.
pub enum MessageView {
    Choke,
    Unchoke,
    Interested,
    NotInterested,
    Have { piece_index: u32 },
    Bitfield { bits: Seq<u8> },
    Request { index: u32, begin: u32, length: u32 },
    Piece { index: u32, begin: u32, block: Seq<u8> },
    Cancel { index: u32, begin: u32, length: u32 },
}

/// A message of the BitTorrent peer-wire protocol.
#[derive(Debug)]
pub enum PeerMessage {
    Choke,
    Unchoke,
    Interested,
    NotInterested,
    Have { piece_index: u32 },
    Bitfield { bitfield: Bitfield },
    Request { index: u32, begin: u32, length: u32 },
    Piece { index: u32, begin: u32, block: Vec<u8> },
    Cancel { index: u32, begin: u32, length: u32 },
}

impl View for PeerMessage {
    type V = MessageView;

    open spec fn view(&self) -> MessageView {
        match self {
            PeerMessage::Choke => MessageView::Choke,
            PeerMessage::Unchoke => MessageView::Unchoke,
            PeerMessage::Interested => MessageView::Interested,
            PeerMessage::NotInterested => MessageView::NotInterested,
            PeerMessage::Have { piece_index } => MessageView::Have { piece_index: *piece_index },
            PeerMessage::Bitfield { bitfield } => MessageView::Bitfield { bits: bitfield@ },
            PeerMessage::Request { index, begin, length } => MessageView::Request {
                index: *index,
                begin: *begin,
                length: *length,
            },
            PeerMessage::Piece { index, begin, block } => MessageView::Piece {
                index: *index,
                begin: *begin,
                block: block@,
            },
            PeerMessage::Cancel { index, begin, length } => MessageView::Cancel {
                index: *index,
                begin: *begin,
                length: *length,
            },
        }
    }
}

/// Why a frame could not be read as a message.
#[derive(Debug, Clone, Copy, PartialEq, Eq, Structural)]
pub enum MessageError {
    /// The bytes end before the frame or the fixed part of its payload does.
    Truncated,
    /// The payload's size does not fit its tag.
    BadLength,
    /// The type tag is none of the nine known ones.
    UnknownTag(u8),
}

/// The payload of a message: its type tag, then its fields.
pub open spec fn payload_spec(m: MessageView) -> Seq<u8> {
    match m {
        MessageView::Choke => seq![0u8],
        MessageView::Unchoke => seq![1u8],
        MessageView::Interested => seq![2u8],
        MessageView::NotInterested => seq![3u8],
        MessageView::Have { piece_index } => seq![4u8] + u32_be(piece_index),
        MessageView::Bitfield { bits } => seq![5u8] + bits,
        MessageView::Request { index, begin, length } => seq![6u8] + u32_be(index) + u32_be(begin)
            + u32_be(length),
        MessageView::Piece { index, begin, block } => seq![7u8] + u32_be(index) + u32_be(begin)
            + block,
        MessageView::Cancel { index, begin, length } => seq![8u8] + u32_be(index) + u32_be(begin)
            + u32_be(length),
    }
}

/// Whether the payload of `m` fits the four-byte length prefix.
pub open spec fn fits_frame(m: MessageView) -> bool {
    payload_spec(m).len() <= u32::MAX
}

/// The whole frame of a message: the payload's length big-endian, then the payload.
pub open spec fn frame_spec(m: MessageView) -> Seq<u8> {
    u32_be(payload_spec(m).len() as u32) + payload_spec(m)
}

/// The message that a non-empty payload holds.
pub open spec fn parse_payload(p: Seq<u8>) -> Result<MessageView, MessageError> {
    if p.len() == 0 {
        Err(MessageError::Truncated)
    } else {
        let tag = p[0];
        let n = p.len() - 1;
        if tag <= 3 {
            if n != 0 {
                Err(MessageError::BadLength)
            } else if tag == 0 {
                Ok(MessageView::Choke)
            } else if tag == 1 {
                Ok(MessageView::Unchoke)
            } else if tag == 2 {
                Ok(MessageView::Interested)
            } else {
                Ok(MessageView::NotInterested)
            }
        } else if tag == 4 {
            if n == 4 {
                Ok(MessageView::Have { piece_index: be_u32(p.subrange(1, 5)) })
            } else {
                Err(MessageError::BadLength)
            }
        } else if tag == 5 {
            Ok(MessageView::Bitfield { bits: p.subrange(1, p.len() as int) })
        } else if tag == 6 || tag == 8 {
            if n != 12 {
                Err(MessageError::BadLength)
            } else {
                let index = be_u32(p.subrange(1, 5));
                let begin = be_u32(p.subrange(5, 9));
                let length = be_u32(p.subrange(9, 13));
                if tag == 6 {
                    Ok(MessageView::Request { index, begin, length })
                } else {
                    Ok(MessageView::Cancel { index, begin, length })
                }
            }
        } else if tag == 7 {
            if n < 8 {
                Err(MessageError::Truncated)
            } else {
                Ok(
                    MessageView::Piece {
                        index: be_u32(p.subrange(1, 5)),
                        begin: be_u32(p.subrange(5, 9)),
                        block: p.subrange(9, p.len() as int),
                    },
                )
            }
        } else {
            Err(MessageError::UnknownTag(tag))
        }
    }
}

/// The frame at the start of `buf`: `None` for a keep-alive (length zero),
/// with the number of bytes the frame takes.
pub open spec fn parse_frame(buf: Seq<u8>) -> Result<(Option<MessageView>, nat), MessageError> {
    if buf.len() < 4 {
        Err(MessageError::Truncated)
    } else {
        let n = be_u32(buf.subrange(0, 4)) as int;
        if buf.len() < 4 + n {
            Err(MessageError::Truncated)
        } else if n == 0 {
            Ok((None, 4))
        } else {
            match parse_payload(buf.subrange(4, 4 + n)) {
                Ok(m) => Ok((Some(m), (4 + n) as nat)),
                Err(e) => Err(e),
            }
        }
    }
}

/// A decoded payload with the message seen through its view.
pub open spec fn message_result_view(r: Result<PeerMessage, MessageError>) -> Result<
    MessageView,
    MessageError,
> {
    match r {
        Ok(m) => Ok(m@),
        Err(e) => Err(e),
    }
}

/// A decoded frame with the message seen through its view.
pub open spec fn frame_result_view(r: Result<(Option<PeerMessage>, usize), MessageError>) -> Result<
    (Option<MessageView>, nat),
    MessageError,
> {
    match r {
        Ok((Some(m), n)) => Ok((Some(m@), n as nat)),
        Ok((None, n)) => Ok((None, n as nat)),
        Err(e) => Err(e),
    }
}

impl PeerMessage {
    /// The payload of this message: type tag, then fields.
    pub fn payload(&self) -> (r: Vec<u8>)
        ensures
            r@ == payload_spec(self@),
    {
        let mut out: Vec<u8> = Vec::new();
        match self {
            PeerMessage::Choke => out.push(0u8),
            PeerMessage::Unchoke => out.push(1u8),
            PeerMessage::Interested => out.push(2u8),
            PeerMessage::NotInterested => out.push(3u8),
            PeerMessage::Have { piece_index } => {
                out.push(4u8);
                push_u32_be(&mut out, *piece_index);
            },
            PeerMessage::Bitfield { bitfield } => {
                out.push(5u8);
                let bytes = bitfield.as_bytes().as_slice();
                push_range(&mut out, bytes, 0, bytes.len());
                proof {
                    assert(bytes@.subrange(0, bytes@.len() as int) =~= bytes@);
                }
            },
            PeerMessage::Request { index, begin, length } => {
                out.push(6u8);
                push_u32_be(&mut out, *index);
                push_u32_be(&mut out, *begin);
                push_u32_be(&mut out, *length);
            },
            PeerMessage::Piece { index, begin, block } => {
                out.push(7u8);
                push_u32_be(&mut out, *index);
                push_u32_be(&mut out, *begin);
                let bytes = block.as_slice();
                push_range(&mut out, bytes, 0, bytes.len());
                proof {
                    assert(bytes@.subrange(0, bytes@.len() as int) =~= bytes@);
                }
            },
            PeerMessage::Cancel { index, begin, length } => {
                out.push(8u8);
                push_u32_be(&mut out, *index);
                push_u32_be(&mut out, *begin);
                push_u32_be(&mut out, *length);
            },
        }
        proof {
            assert(out@ =~= payload_spec(self@));
        }
        out
    }

    /// The frame of this message as it goes on the wire.
    pub fn to_bytes(&self) -> (r: Vec<u8>)
        requires
            fits_frame(self@),
        ensures
            r@ == frame_spec(self@),
    {
        let payload = self.payload();
        let mut out: Vec<u8> = Vec::new();
        push_u32_be(&mut out, payload.len() as u32);
        let p = payload.as_slice();
        push_range(&mut out, p, 0, p.len());
        proof {
            assert(p@.subrange(0, p@.len() as int) =~= p@);
            assert(out@ =~= frame_spec(self@));
        }
        out
    }

    /// Reads a non-empty payload (type tag and fields) as a message.
    pub fn decode_payload(p: &[u8]) -> (r: Result<PeerMessage, MessageError>)
        ensures
            message_result_view(r) == parse_payload(p@),
    {
        if p.len() == 0 {
            return Err(MessageError::Truncated);
        }
        let tag = p[0];
        let n = p.len() - 1;
        if tag <= 3 {
            if n != 0 {
                Err(MessageError::BadLength)
            } else if tag == 0 {
                Ok(PeerMessage::Choke)
            } else if tag == 1 {
                Ok(PeerMessage::Unchoke)
            } else if tag == 2 {
                Ok(PeerMessage::Interested)
            } else {
                Ok(PeerMessage::NotInterested)
            }
        } else if tag == 4 {
            if n == 4 {
                Ok(PeerMessage::Have { piece_index: read_u32_be(p, 1) })
            } else {
                Err(MessageError::BadLength)
            }
        } else if tag == 5 {
            Ok(PeerMessage::Bitfield { bitfield: Bitfield::new(copy_range(p, 1, p.len())) })
        } else if tag == 6 || tag == 8 {
            if n != 12 {
                Err(MessageError::BadLength)
            } else {
                let index = read_u32_be(p, 1);
                let begin = read_u32_be(p, 5);
                let length = read_u32_be(p, 9);
                if tag == 6 {
                    Ok(PeerMessage::Request { index, begin, length })
                } else {
                    Ok(PeerMessage::Cancel { index, begin, length })
                }
            }
        } else if tag == 7 {
            if n < 8 {
                Err(MessageError::Truncated)
            } else {
                Ok(
                    PeerMessage::Piece {
                        index: read_u32_be(p, 1),
                        begin: read_u32_be(p, 5),
                        block: copy_range(p, 9, p.len()),
                    },
                )
            }
        } else {
            Err(MessageError::UnknownTag(tag))
        }
    }

    /// Reads the frame at the start of `buf`. `None` stands for a keep-alive;
    /// the count is the number of bytes the frame took.
    pub fn decode_frame(buf: &[u8]) -> (r: Result<(Option<PeerMessage>, usize), MessageError>)
        ensures
            frame_result_view(r) == parse_frame(buf@),
    {
        if buf.len() < 4 {
            return Err(MessageError::Truncated);
        }
        let n = read_u32_be(buf, 0) as usize;
        if buf.len() - 4 < n {
            return Err(MessageError::Truncated);
        }
        if n == 0 {
            return Ok((None, 4));
        }
        let payload = copy_range(buf, 4, 4 + n);
        match PeerMessage::decode_payload(payload.as_slice()) {
            Ok(m) => Ok((Some(m), 4 + n)),
            Err(e) => Err(e),
        }
    }
}

/// Every message that fits a frame reads back from its own frame as itself,
/// and the frame is used up exactly.
pub proof fn lemma_message_round_trip(m: MessageView)
    requires
        fits_frame(m),
    ensures
        parse_payload(payload_spec(m)) == Ok::<MessageView, MessageError>(m),
        parse_frame(frame_spec(m)) == Ok::<(Option<MessageView>, nat), MessageError>(
            (Some(m), frame_spec(m).len()),
        ),
{
    let p = payload_spec(m);
    match m {
        MessageView::Have { piece_index } => {
            lemma_be_round_trip(piece_index);
            assert(p.subrange(1, 5) =~= u32_be(piece_index));
        },
        MessageView::Bitfield { bits } => {
            assert(p.subrange(1, p.len() as int) =~= bits);
        },
        MessageView::Request { index, begin, length } => {
            lemma_be_round_trip(index);
            lemma_be_round_trip(begin);
            lemma_be_round_trip(length);
            assert(p.subrange(1, 5) =~= u32_be(index));
            assert(p.subrange(5, 9) =~= u32_be(begin));
            assert(p.subrange(9, 13) =~= u32_be(length));
        },
        MessageView::Piece { index, begin, block } => {
            lemma_be_round_trip(index);
            lemma_be_round_trip(begin);
            assert(p.subrange(1, 5) =~= u32_be(index));
            assert(p.subrange(5, 9) =~= u32_be(begin));
            assert(p.subrange(9, p.len() as int) =~= block);
        },
        MessageView::Cancel { index, begin, length } => {
            lemma_be_round_trip(index);
            lemma_be_round_trip(begin);
            lemma_be_round_trip(length);
            assert(p.subrange(1, 5) =~= u32_be(index));
            assert(p.subrange(5, 9) =~= u32_be(begin));
            assert(p.subrange(9, 13) =~= u32_be(length));
        },
        _ => {},
    }
    let f = frame_spec(m);
    let len = p.len() as u32;
    lemma_be_round_trip(len);
    assert(f.subrange(0, 4) =~= u32_be(len));
    assert(f.subrange(4, 4 + p.len() as int) =~= p);
}

proof fn lemma_field(p: Seq<u8>, at: int)
    requires
        0 <= at,
        at + 4 <= p.len(),
    ensures
        u32_be(be_u32(p.subrange(at, at + 4))) == p.subrange(at, at + 4),
{
    lemma_be_injective(p.subrange(at, at + 4));
}

/// A payload that reads as a message is exactly that message's payload.
pub proof fn lemma_payload_canonical(p: Seq<u8>)
    requires
        parse_payload(p) is Ok,
    ensures
        payload_spec(parse_payload(p)->Ok_0) == p,
{
    let m = parse_payload(p)->Ok_0;
    let tag = p[0];
    if tag == 4 {
        lemma_field(p, 1);
        assert(payload_spec(m) =~= p);
    } else if tag == 6 || tag == 8 {
        lemma_field(p, 1);
        lemma_field(p, 5);
        lemma_field(p, 9);
        assert(payload_spec(m) =~= p);
    } else if tag == 7 {
        lemma_field(p, 1);
        lemma_field(p, 5);
        assert(payload_spec(m) =~= p);
    } else {
        assert(payload_spec(m) =~= p);
    }
}

/// A frame that reads as a message is exactly that message's frame: the
/// wire format has one encoding per message.
pub proof fn lemma_frame_canonical(buf: Seq<u8>)
    requires
        parse_frame(buf) matches Ok((Some(m), n)),
    ensures
        ({
            let (m, n) = parse_frame(buf)->Ok_0;
            &&& fits_frame(m->Some_0)
            &&& frame_spec(m->Some_0) == buf.subrange(0, n as int)
        }),
{
    let n = be_u32(buf.subrange(0, 4)) as int;
    let p = buf.subrange(4, 4 + n);
    lemma_payload_canonical(p);
    lemma_be_injective(buf.subrange(0, 4));
    let m = parse_payload(p)->Ok_0;
    assert(payload_spec(m).len() == n);
    assert(frame_spec(m) =~= buf.subrange(0, 4 + n));
}

} // verus!
