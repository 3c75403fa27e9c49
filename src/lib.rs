//! Core of a BitTorrent download client.
//!
//! - `bitfield`, `handshake`, `message`: the peer-wire formats, with their
//!   round-trip laws.
//! - `session`: the protocol state of one peer connection and the assembly
//!   and SHA-1 check of one piece.
//! - `piece`, `pool`, `download`: piece descriptors and the shared pool from
//!   which workers claim pieces, each held by at most one worker at a time.
//! - `writer`: where each piece lands in the output file.
//! - `tracker`: the announce URL and the peers a tracker lists.
//! - `ids`, `bigendian`: 20-byte identifiers and big-endian integers.
pub mod bigendian;
pub mod bitfield;
pub mod download;
pub mod handshake;
pub mod ids;
pub mod message;
pub mod piece;
pub mod pool;
pub mod session;
pub mod tracker;
pub mod writer;
