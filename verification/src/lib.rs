//! The WebSocket opening handshake: validation of an HTTP upgrade request,
//! negotiation of subprotocol and extension, and encoding of the response.
//!
//! The library decides; it does not read or write. Its caller reads bytes
//! into a buffer and feeds the buffer to a [`StreamingParser`] until the
//! parser comes to a decision, then encodes the answer with
//! [`encode_response`] and writes it out.

pub mod ascii;
pub mod buffers;
pub mod errors;
pub mod extension;
pub mod header_map;
pub mod headers;
pub mod request;
pub mod response;
pub mod server;
pub mod streaming;
pub mod subprotocols;
pub mod tokens;
pub mod wire;

pub use errors::{ErrorKind, HandshakeError, HttpError, InvalidHeader, SyntaxError};
pub use extension::{ExtensionProvider, NegotiatedExtension, NoExt, NoExtProvider};
pub use header_map::TryMap;
pub use request::{Request, TryIntoRequest};
pub use response::encode_response;
pub use server::{
    check_partial_request, parse_request, try_parse_request, HandshakeResult, RequestParser,
};
pub use streaming::{Decoder, ParseResult, Step, StreamingParser};
pub use subprotocols::{negotiate_request, ProtocolRegistry};
pub use wire::{RawHeader, RawRequest};
