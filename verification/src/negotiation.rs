//! Version negotiation: the table of supported APIs and the response that
//! answers a request.

use crate::request::{Request, RequestView};
use crate::response::{
    ApiKeys, ApiVersions, ApiVersionsView, ErrorCode, Response, ResponseBody, ResponseBodyView,
    ResponseHeader, ResponseView,
};
use vstd::prelude::*;

verus! {

/// The API key of the version handshake itself.
pub const API_VERSIONS_KEY: i16 = 18;

/// The lowest version of the handshake that is supported.
pub const API_VERSIONS_MIN_VERSION: i16 = 0;

/// The highest version of the handshake that is supported.
pub const API_VERSIONS_MAX_VERSION: i16 = 4;

/// The API key of the second supported API.
pub const SECONDARY_KEY: i16 = 1;

/// The lowest version of the second API that is supported.
pub const SECONDARY_MIN_VERSION: i16 = 0;

/// The highest version of the second API that is supported.
pub const SECONDARY_MAX_VERSION: i16 = 16;

/// The table's entry for the version handshake.
pub open spec fn spec_handshake_entry() -> ApiKeys {
    ApiKeys {
        api_key: API_VERSIONS_KEY,
        min_version: API_VERSIONS_MIN_VERSION,
        max_version: API_VERSIONS_MAX_VERSION,
    }
}

/// The table's entry for the second API.
pub open spec fn spec_secondary_entry() -> ApiKeys {
    ApiKeys {
        api_key: SECONDARY_KEY,
        min_version: SECONDARY_MIN_VERSION,
        max_version: SECONDARY_MAX_VERSION,
    }
}

/// The supported APIs, in the order in which every response lists them.
pub open spec fn spec_supported_api_keys() -> Seq<ApiKeys> {
    seq![spec_handshake_entry(), spec_secondary_entry()]
}

/// The outcome for a request of version `api_version`: no error where the
/// handshake's entry covers it, an unsupported version everywhere else.
pub open spec fn spec_negotiate_version(api_version: i16) -> ErrorCode {
    if spec_handshake_entry().spec_supports(api_version) {
        ErrorCode::NoError
    } else {
        ErrorCode::UnsupportedVersion
    }
}

/// The header of the response to `request`.
pub open spec fn spec_response_header(request: RequestView) -> ResponseHeader {
    ResponseHeader { correlation_id: request.header.correlation_id }
}

/// The body of the response to `request`.
pub open spec fn spec_response_body(request: RequestView) -> ResponseBodyView {
    ResponseBodyView {
        api_versions: ApiVersionsView {
            error_code: spec_negotiate_version(request.header.request_api_version),
            num_api_keys: 2,
            api_keys: spec_supported_api_keys(),
            throttle_time_ms: 0,
        },
        tag_buffer: 0,
    }
}

/// The response to `request`.
pub open spec fn spec_response(request: RequestView) -> ResponseView {
    let header = spec_response_header(request);
    let body = spec_response_body(request);
    ResponseView { message_size: (header.wire().len() + body.wire().len()) as i32, header, body }
}

/// The table's entry for the version handshake: key 18, versions 0 to 4.
pub fn handshake_entry() -> (entry: ApiKeys)
    ensures
        entry == spec_handshake_entry(),
{
    ApiKeys {
        api_key: API_VERSIONS_KEY,
        min_version: API_VERSIONS_MIN_VERSION,
        max_version: API_VERSIONS_MAX_VERSION,
    }
}

/// The table's entry for the second API: key 1, versions 0 to 16.
pub fn secondary_entry() -> (entry: ApiKeys)
    ensures
        entry == spec_secondary_entry(),
{
    ApiKeys {
        api_key: SECONDARY_KEY,
        min_version: SECONDARY_MIN_VERSION,
        max_version: SECONDARY_MAX_VERSION,
    }
}

/// The supported APIs, in the order in which every response lists them.
pub fn supported_api_keys() -> (table: Vec<ApiKeys>)
    ensures
        table@ == spec_supported_api_keys(),
{
    let mut api_keys: Vec<ApiKeys> = Vec::new();
    api_keys.push(handshake_entry());
    api_keys.push(secondary_entry());
    api_keys
}

/// Decides whether a request of version `api_version` can be served: it
/// can where the handshake's entry covers the version, that is from 0 to 4.
pub fn negotiate_version(api_version: i16) -> (code: ErrorCode)
    ensures
        code == spec_negotiate_version(api_version),
        code == ErrorCode::NoError <==> 0 <= api_version <= 4,
        code == ErrorCode::UnsupportedVersion <==> !(0 <= api_version <= 4),
{
    if handshake_entry().supports(api_version) {
        ErrorCode::NoError
    } else {
        ErrorCode::UnsupportedVersion
    }
}

/// Builds the header of the response to `request`: it echoes the
/// request's correlation id.
pub fn encode_response_header(request: &Request) -> (header: ResponseHeader)
    ensures
        header == spec_response_header(request@),
        header.correlation_id == request.header.correlation_id,
{
    ResponseHeader { correlation_id: request.header.correlation_id }
}

/// Builds the body of the response to `request`: the outcome of the
/// negotiation, the table of supported APIs, no throttling.
pub fn encode_response_body(request: &Request) -> (body: ResponseBody)
    ensures
        body@ == spec_response_body(request@),
        body@.api_versions.wf(),
        body@.size() == 21,
{
    let api_keys = supported_api_keys();
    let error_code = negotiate_version(request.header.request_api_version);
    let api_versions = ApiVersions { error_code, num_api_keys: 2, api_keys, throttle_time_ms: 0 };
    ResponseBody { api_versions, tag_buffer: 0 }
}

/// Builds the response to `request`. Its announced size is the number of
/// bytes of its header and body on the wire.
pub fn encode_response(request: &Request) -> (response: Response)
    ensures
        response@ == spec_response(request@),
        response@.wf(),
        response.header.correlation_id == request.header.correlation_id,
        response.message_size == 25,
{
    let header = encode_response_header(request);
    let body = encode_response_body(request);
    proof {
        body@.lemma_size();
    }
    let message_size: i32 = (header.size() + body.size()) as i32;
    Response { message_size, header, body }
}

} // verus!
