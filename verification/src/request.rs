//! The request of a version handshake: its frame and its header.

use crate::error::ProtocolError;
use crate::wire::{get_i16, get_i32, i16_from_be, i32_from_be};
use vstd::prelude::*;
use vstd::slice::slice_subrange;
use vstd::utf8::{decode_utf8, encode_utf8, encode_utf8_decode_utf8, valid_utf8};

verus! {

/// The number of bytes of a frame's length prefix.
pub const SIZE_PREFIX_LEN: usize = 4;

/// The number of bytes of a header up to and including the length of the
/// client identifier.
pub const FIXED_HEADER_LEN: usize = 10;

/// The largest message that a frame may announce: 100 MiB. A larger
/// announcement is taken for garbage, not for a message to make room for.
pub const MAX_FRAME_SIZE: i32 = 0x640_0000;

/// The header of a request.
#[derive(Debug, PartialEq, Eq)]
pub struct RequestHeader {
    pub request_api_key: i16,
    pub request_api_version: i16,
    pub correlation_id: i32,
    pub client_id: Option<String>,
}

/// What a [`RequestHeader`] holds.
pub struct RequestHeaderView {
    pub request_api_key: i16,
    pub request_api_version: i16,
    pub correlation_id: i32,
    pub client_id: Option<Seq<char>>,
}

impl RequestHeaderView {
    /// A client identifier that is present is not empty: on the wire an
    /// empty one and an absent one are the same.
    pub open spec fn wf(self) -> bool {
        self.client_id matches Some(id) ==> id.len() > 0
    }
}

impl View for RequestHeader {
    type V = RequestHeaderView;

    open spec fn view(&self) -> RequestHeaderView {
        RequestHeaderView {
            request_api_key: self.request_api_key,
            request_api_version: self.request_api_version,
            correlation_id: self.correlation_id,
            client_id: match self.client_id {
                Some(id) => Some(id@),
                None => None,
            },
        }
    }
}

/// A request as far as this crate reads it: the announced size and the header.
#[derive(Debug, PartialEq, Eq)]
pub struct Request {
    pub message_size: i32,
    pub header: RequestHeader,
}

/// What a [`Request`] holds.
pub struct RequestView {
    pub message_size: i32,
    pub header: RequestHeaderView,
}

impl View for Request {
    type V = RequestView;

    open spec fn view(&self) -> RequestView {
        RequestView { message_size: self.message_size, header: self.header@ }
    }
}

/// `core::str::Utf8Error`, the error of `core::str::from_utf8`. It is
/// carried, never looked into.
#[verifier::external_type_specification]
#[verifier::external_body]
pub struct ExUtf8Error(core::str::Utf8Error);

/// `core::str::from_utf8`, taken on trust from its documentation: it
/// succeeds on exactly the byte slices that are valid UTF-8, and the string
/// slice it then returns is made of the very bytes it was given.
pub assume_specification[ core::str::from_utf8 ](v: &[u8]) -> (r: Result<
    &str,
    core::str::Utf8Error,
>)
    ensures
        r is Ok <==> valid_utf8(v@),
        r matches Ok(s) ==> encode_utf8(s@) == v@,
;

/// Whether a frame may announce a message of `n` bytes.
pub open spec fn plausible_size(n: i32) -> bool {
    0 <= n <= MAX_FRAME_SIZE
}

/// The size that the length prefix at the start of `prefix` announces.
///
/// Fewer bytes than a prefix has mean that the stream ended inside it.
pub open spec fn spec_parse_message_size(prefix: Seq<u8>) -> Result<i32, ProtocolError> {
    if prefix.len() < SIZE_PREFIX_LEN {
        Err(ProtocolError::ConnectionClosed)
    } else {
        let n = i32_from_be(prefix.subrange(0, 4));
        if plausible_size(n) {
            Ok(n)
        } else {
            Err(ProtocolError::MalformedFrame)
        }
    }
}

/// The header at the start of `buf`.
///
/// Key, version and correlation id stand at fixed offsets. The length of the
/// client identifier follows; where it is positive, that many bytes of UTF-8
/// follow it, and where it is zero or negative, there is no identifier.
pub open spec fn spec_decode_request_header(buf: Seq<u8>) -> Result<
    RequestHeaderView,
    ProtocolError,
> {
    if buf.len() < FIXED_HEADER_LEN {
        Err(ProtocolError::TruncatedHeader)
    } else {
        let n = i16_from_be(buf.subrange(8, 10));
        if n <= 0 {
            Ok(
                RequestHeaderView {
                    request_api_key: i16_from_be(buf.subrange(0, 2)),
                    request_api_version: i16_from_be(buf.subrange(2, 4)),
                    correlation_id: i32_from_be(buf.subrange(4, 8)),
                    client_id: None,
                },
            )
        } else if buf.len() < 10 + n {
            Err(ProtocolError::TruncatedHeader)
        } else if !valid_utf8(buf.subrange(10, 10 + n)) {
            Err(ProtocolError::MalformedClientId)
        } else {
            Ok(
                RequestHeaderView {
                    request_api_key: i16_from_be(buf.subrange(0, 2)),
                    request_api_version: i16_from_be(buf.subrange(2, 4)),
                    correlation_id: i32_from_be(buf.subrange(4, 8)),
                    client_id: Some(decode_utf8(buf.subrange(10, 10 + n))),
                },
            )
        }
    }
}

/// The header of the message of `message_size` bytes at the start of
/// `message`.
///
/// Fewer bytes than announced mean that the stream ended inside the message.
pub open spec fn spec_decode_request_message(message_size: i32, message: Seq<u8>) -> Result<
    RequestHeaderView,
    ProtocolError,
> {
    if !plausible_size(message_size) {
        Err(ProtocolError::MalformedFrame)
    } else if message.len() < message_size {
        Err(ProtocolError::ConnectionClosed)
    } else {
        spec_decode_request_header(message.subrange(0, message_size as int))
    }
}

/// The request that `received` holds: a length prefix, then the message.
pub open spec fn spec_parse_request(received: Seq<u8>) -> Result<RequestView, ProtocolError> {
    match spec_parse_message_size(received) {
        Err(e) => Err(e),
        Ok(message_size) => match spec_decode_request_message(
            message_size,
            received.subrange(SIZE_PREFIX_LEN as int, received.len() as int),
        ) {
            Err(e) => Err(e),
            Ok(header) => Ok(RequestView { message_size, header }),
        },
    }
}

/// Reads the length prefix of a frame from what the stream gave for it.
///
/// `ConnectionClosed` if the stream gave fewer than four bytes;
/// `MalformedFrame` if the announced size is negative or above
/// [`MAX_FRAME_SIZE`].
pub fn parse_message_size(prefix: &[u8]) -> (r: Result<i32, ProtocolError>)
    ensures
        r == spec_parse_message_size(prefix@),
{
    if prefix.len() < SIZE_PREFIX_LEN {
        return Err(ProtocolError::ConnectionClosed);
    }
    let message_size: i32 = get_i32(prefix, 0);
    if message_size < 0 || message_size > MAX_FRAME_SIZE {
        return Err(ProtocolError::MalformedFrame);
    }
    Ok(message_size)
}

/// Decodes the header at the start of a message.
///
/// `TruncatedHeader` if the message has fewer than ten bytes or ends before
/// the client identifier does; `MalformedClientId` if the identifier is not
/// valid UTF-8.
pub fn decode_request_header(message_buf: &[u8]) -> (r: Result<RequestHeader, ProtocolError>)
    ensures
        r matches Ok(header) ==> spec_decode_request_header(message_buf@) == Ok::<
            RequestHeaderView,
            ProtocolError,
        >(header@) && header@.wf(),
        r matches Err(e) ==> spec_decode_request_header(message_buf@) == Err::<
            RequestHeaderView,
            ProtocolError,
        >(e),
{
    if message_buf.len() < FIXED_HEADER_LEN {
        return Err(ProtocolError::TruncatedHeader);
    }
    let request_api_key: i16 = get_i16(message_buf, 0);
    let request_api_version: i16 = get_i16(message_buf, 2);
    let correlation_id: i32 = get_i32(message_buf, 4);
    let size_of_client_id: i16 = get_i16(message_buf, 8);
    let client_id = if size_of_client_id > 0 {
        let end: usize = FIXED_HEADER_LEN + size_of_client_id as usize;
        if message_buf.len() < end {
            return Err(ProtocolError::TruncatedHeader);
        }
        let client_id_slice = slice_subrange(message_buf, FIXED_HEADER_LEN, end);
        match core::str::from_utf8(client_id_slice) {
            Ok(client_id) => {
                proof {
                    encode_utf8_decode_utf8(client_id@);
                }
                Some(client_id.to_owned())
            },
            Err(_) => {
                return Err(ProtocolError::MalformedClientId);
            },
        }
    } else {
        None
    };
    Ok(RequestHeader { request_api_key, request_api_version, correlation_id, client_id })
}

/// Decodes the header of a message of `message_size` bytes from what the
/// stream gave for it.
///
/// `MalformedFrame` if `message_size` is negative or above
/// [`MAX_FRAME_SIZE`]; `ConnectionClosed` if the stream gave fewer bytes than
/// that; otherwise what [`decode_request_header`] makes of the message.
pub fn decode_request_message(message_size: i32, message: &[u8]) -> (r: Result<
    RequestHeader,
    ProtocolError,
>)
    ensures
        r matches Ok(header) ==> spec_decode_request_message(message_size, message@) == Ok::<
            RequestHeaderView,
            ProtocolError,
        >(header@) && header@.wf(),
        r matches Err(e) ==> spec_decode_request_message(message_size, message@) == Err::<
            RequestHeaderView,
            ProtocolError,
        >(e),
{
    if message_size < 0 || message_size > MAX_FRAME_SIZE {
        return Err(ProtocolError::MalformedFrame);
    }
    let len: usize = message_size as usize;
    if message.len() < len {
        return Err(ProtocolError::ConnectionClosed);
    }
    decode_request_header(slice_subrange(message, 0, len))
}

/// Reads one request from what the stream gave for it: the length prefix
/// and the message behind it.
pub fn parse_request(received: &[u8]) -> (r: Result<Request, ProtocolError>)
    ensures
        r matches Ok(request) ==> spec_parse_request(received@) == Ok::<
            RequestView,
            ProtocolError,
        >(request@) && request@.header.wf(),
        r matches Err(e) ==> spec_parse_request(received@) == Err::<RequestView, ProtocolError>(
            e,
        ),
{
    let message_size: i32 = match parse_message_size(received) {
        Ok(message_size) => message_size,
        Err(e) => {
            return Err(e);
        },
    };
    let message = slice_subrange(received, SIZE_PREFIX_LEN, received.len());
    match decode_request_message(message_size, message) {
        Ok(header) => Ok(Request { message_size, header }),
        Err(e) => Err(e),
    }
}

} // verus!
