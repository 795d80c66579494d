//! Wire codec and connection rules of a broker's version handshake.
//!
//! A client opens a connection and asks which API versions the broker
//! supports. Requests and responses are length-framed, every integer is
//! big-endian. This crate holds the pure part of that exchange: framing,
//! request header decoding, version negotiation, response encoding and the
//! per-connection state machine. It performs no I/O.

pub mod connection;
pub mod decode;
pub mod error;
pub mod laws;
pub mod negotiation;
pub mod request;
pub mod response;
pub mod wire;

pub use connection::{
    accept, respond, step, ConnectionAction, ConnectionEvent, ConnectionState, Transition,
};
pub use error::ProtocolError;
pub use negotiation::{
    encode_response, encode_response_body, encode_response_header, handshake_entry,
    negotiate_version, secondary_entry, supported_api_keys,
};
pub use request::{
    decode_request_header, decode_request_message, parse_message_size, parse_request, Request,
    RequestHeader, MAX_FRAME_SIZE,
};
pub use response::{ApiKeys, ApiVersions, ErrorCode, Response, ResponseBody, ResponseHeader};
