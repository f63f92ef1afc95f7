//! A multiplexer that carries several CBOR message streams ("mini-protocols")
//! over one byte stream, together with the state machines that say which
//! message each side may send next.
//!
//! Every frame on the stream is an eight-byte header followed by at most
//! 65535 payload bytes. A message may span several frames; where it ends is
//! decided by the CBOR item boundary, never by the frame.
//!
//! The modules, from the wire up:
//!
//! - `frame`, `buf`, `mux`, `demux`: headers, the byte buffer, and the two
//!   halves of the framing layer; `stream` holds the laws that tie them.
//! - `cbor_helper`, `channel`, `channels_map`: where a message ends in the
//!   bytes received, the receiving end of a channel, and the directory of
//!   the channels of a connection.
//! - `protocol` and one module for each mini-protocol: states, messages,
//!   transitions, and the form of every message as a CBOR tree (`cbor`);
//!   `cbor_bytes` writes trees as bytes and reads them back; `transitions`
//!   derives the same artefacts from a declaration given as data.
//! - `endpoint`, `handle`: the ends of a channel as a conversation sees
//!   them, and what the reader and the writer of a connection do between
//!   two waits.
//! - `handshake`, `chainsync_client`, `blockfetch_client`, `peersharing`,
//!   `client`, `server`: the conversations, step by step.
//!
//! Nothing here reads or writes a transport, or waits: a caller hands in the
//! bytes and the messages that arrived and is told what to send.

pub mod blockfetch;
pub mod blockfetch_client;
pub mod buf;
pub mod cbor;
pub mod cbor_bytes;
pub mod cbor_helper;
pub mod chainsync_client;
pub mod chainsync_n2c;
pub mod chainsync_n2n;
pub mod channel;
pub mod channels_map;
pub mod client;
pub mod demux;
pub mod endpoint;
pub mod frame;
pub mod handle;
pub mod handshake;
pub mod handshake_n2c;
pub mod handshake_n2n;
pub mod keepalive;
pub mod local_state_query;
pub mod local_tx_monitor;
pub mod local_tx_submission;
pub mod mux;
pub mod peer_sharing;
pub mod peersharing;
pub mod protocol;
pub mod protocol_numbers;
pub mod server;
pub mod stream;
pub mod transitions;
pub mod tx_submission;

pub use cbor_helper::{cbor_buf_validate, CborBufValidate};
pub use channel::{Channel, ReadMessageError};
pub use channels_map::{ChannelsMap, ChannelsMapBuilder, DuplicateChannel};
pub use demux::{Demux, DemuxResult};
pub use frame::{Direction, Header, Id, OnDirection, Time, HEADER_SIZE};
pub use mux::Mux;
pub use protocol::Protocol;
