//! The response to a version handshake and its encoding.

use crate::wire::{be_bytes_i16, be_bytes_i32, be_bytes_i8, put_i16, put_i32, put_i8};
use vstd::prelude::*;

verus! {

/// The outcome of the negotiation, as the response carries it.
#[derive(Clone, Copy, Debug, PartialEq, Eq, Structural)]
pub enum ErrorCode {
    NoError,
    UnsupportedVersion,
}

impl ErrorCode {
    /// The number that stands for this outcome on the wire.
    pub open spec fn spec_code(self) -> i16 {
        match self {
            ErrorCode::NoError => 0,
            ErrorCode::UnsupportedVersion => 35,
        }
    }

    /// The number that stands for this outcome on the wire.
    #[verifier::when_used_as_spec(spec_code)]
    pub fn code(self) -> (c: i16)
        ensures
            c == self.spec_code(),
    {
        match self {
            ErrorCode::NoError => 0,
            ErrorCode::UnsupportedVersion => 35,
        }
    }
}

/// One supported API and the inclusive range of its versions.
#[derive(Clone, Copy, Debug, PartialEq, Eq, Structural)]
pub struct ApiKeys {
    pub api_key: i16,
    pub min_version: i16,
    pub max_version: i16,
}

impl ApiKeys {
    /// The six bytes of this entry: key, lowest and highest version.
    pub open spec fn wire(self) -> Seq<u8> {
        be_bytes_i16(self.api_key) + be_bytes_i16(self.min_version) + be_bytes_i16(
            self.max_version,
        )
    }

    /// Whether `version` lies in this entry's range, both ends included.
    pub open spec fn spec_supports(self, version: i16) -> bool {
        self.min_version <= version <= self.max_version
    }

    /// The number of bytes of this entry on the wire.
    pub fn size(&self) -> (n: usize)
        ensures
            n == 6,
            n == self.wire().len(),
    {
        2 * 3
    }

    /// This entry as it stands on the wire.
    pub fn to_bytes(&self) -> (bytes: Vec<u8>)
        ensures
            bytes@ == self.wire(),
    {
        let mut result: Vec<u8> = Vec::new();
        put_i16(&mut result, self.api_key);
        put_i16(&mut result, self.min_version);
        put_i16(&mut result, self.max_version);
        result
    }

    /// Whether `version` lies in this entry's range, both ends included.
    #[verifier::when_used_as_spec(spec_supports)]
    pub fn supports(self, version: i16) -> (b: bool)
        ensures
            b == self.spec_supports(version),
    {
        self.min_version <= version && version <= self.max_version
    }
}

/// The entries of a table one after the other, in the table's order.
pub open spec fn entries_wire(keys: Seq<ApiKeys>) -> Seq<u8>
    decreases keys.len(),
{
    if keys.len() == 0 {
        Seq::empty()
    } else {
        entries_wire(keys.drop_last()) + keys.last().wire()
    }
}

/// Every entry takes six bytes.
pub proof fn lemma_entries_wire_len(keys: Seq<ApiKeys>)
    ensures
        entries_wire(keys).len() == 6 * keys.len(),
    decreases keys.len(),
{
    if keys.len() > 0 {
        lemma_entries_wire_len(keys.drop_last());
    }
}

/// The section of a response that lists the supported APIs.
#[derive(Debug, PartialEq, Eq)]
pub struct ApiVersions {
    pub error_code: ErrorCode,
    pub num_api_keys: i8,
    pub api_keys: Vec<ApiKeys>,
    pub throttle_time_ms: i32,
}

/// What an [`ApiVersions`] holds.
pub struct ApiVersionsView {
    pub error_code: ErrorCode,
    pub num_api_keys: i8,
    pub api_keys: Seq<ApiKeys>,
    pub throttle_time_ms: i32,
}

impl ApiVersionsView {
    /// The count that the section announces is the number of its entries.
    pub open spec fn wf(self) -> bool {
        self.num_api_keys as int == self.api_keys.len()
    }

    /// The section on the wire: error code, count, entries, throttle time.
    pub open spec fn wire(self) -> Seq<u8> {
        be_bytes_i16(self.error_code.spec_code()) + be_bytes_i8(self.num_api_keys) + entries_wire(
            self.api_keys,
        ) + be_bytes_i32(self.throttle_time_ms)
    }

    /// The number of bytes of the section on the wire.
    pub open spec fn size(self) -> nat {
        2 + 1 + 6 * self.api_keys.len() + 4
    }

    /// `size` is the length of `wire`.
    pub proof fn lemma_size(self)
        ensures
            self.wire().len() == self.size(),
    {
        lemma_entries_wire_len(self.api_keys);
    }
}

impl View for ApiVersions {
    type V = ApiVersionsView;

    open spec fn view(&self) -> ApiVersionsView {
        ApiVersionsView {
            error_code: self.error_code,
            num_api_keys: self.num_api_keys,
            api_keys: self.api_keys@,
            throttle_time_ms: self.throttle_time_ms,
        }
    }
}

impl ApiVersions {
    /// The number of bytes of this section on the wire. The section must
    /// be small enough for that number to be a `usize`.
    pub fn size(&self) -> (n: usize)
        requires
            self@.size() <= usize::MAX,
        ensures
            n == self@.size(),
            n == self@.wire().len(),
    {
        let mut entries: usize = 0;
        let mut i: usize = 0;
        while i < self.api_keys.len()
            invariant
                i <= self.api_keys.len(),
                entries == 6 * i,
                self@.size() <= usize::MAX,
            decreases self.api_keys.len() - i,
        {
            entries = entries + self.api_keys[i].size();
            i = i + 1;
        }
        proof {
            self@.lemma_size();
        }
        2 + 1 + entries + 4
    }

    /// This section as it stands on the wire. The count is written as it
    /// is, whether or not it is the number of the entries.
    pub fn to_bytes(&self) -> (bytes: Vec<u8>)
        ensures
            bytes@ == self@.wire(),
    {
        let mut result: Vec<u8> = Vec::new();
        put_i16(&mut result, self.error_code.code());
        put_i8(&mut result, self.num_api_keys);
        let ghost head = result@;
        let mut i: usize = 0;
        while i < self.api_keys.len()
            invariant
                i <= self.api_keys.len(),
                result@ == head + entries_wire(self.api_keys@.take(i as int)),
            decreases self.api_keys.len() - i,
        {
            let mut entry = self.api_keys[i].to_bytes();
            proof {
                assert(self.api_keys@.take(i + 1).drop_last() =~= self.api_keys@.take(i as int));
            }
            result.append(&mut entry);
            i = i + 1;
        }
        proof {
            assert(self.api_keys@.take(i as int) =~= self.api_keys@);
        }
        put_i32(&mut result, self.throttle_time_ms);
        result
    }
}

/// The header of a response.
#[derive(Clone, Copy, Debug, PartialEq, Eq, Structural)]
pub struct ResponseHeader {
    pub correlation_id: i32,
}

impl ResponseHeader {
    /// The header on the wire: the correlation id.
    pub open spec fn wire(self) -> Seq<u8> {
        be_bytes_i32(self.correlation_id)
    }

    /// The number of bytes of this header on the wire.
    pub fn size(&self) -> (n: usize)
        ensures
            n == 4,
            n == self.wire().len(),
    {
        4
    }

    /// This header as it stands on the wire.
    pub fn to_bytes(&self) -> (bytes: Vec<u8>)
        ensures
            bytes@ == self.wire(),
    {
        let mut result: Vec<u8> = Vec::new();
        put_i32(&mut result, self.correlation_id);
        result
    }
}

/// The body of a response.
#[derive(Debug, PartialEq, Eq)]
pub struct ResponseBody {
    pub api_versions: ApiVersions,
    /// The reserved byte. It stands on the wire twice.
    pub tag_buffer: i8,
}

/// What a [`ResponseBody`] holds.
pub struct ResponseBodyView {
    pub api_versions: ApiVersionsView,
    pub tag_buffer: i8,
}

impl ResponseBodyView {
    /// The body on the wire: the section of supported APIs, then the
    /// reserved byte twice.
    pub open spec fn wire(self) -> Seq<u8> {
        self.api_versions.wire() + be_bytes_i8(self.tag_buffer) + be_bytes_i8(self.tag_buffer)
    }

    /// The number of bytes of the body on the wire.
    pub open spec fn size(self) -> nat {
        self.api_versions.size() + 2
    }

    /// `size` is the length of `wire`.
    pub proof fn lemma_size(self)
        ensures
            self.wire().len() == self.size(),
    {
        self.api_versions.lemma_size();
    }
}

impl View for ResponseBody {
    type V = ResponseBodyView;

    open spec fn view(&self) -> ResponseBodyView {
        ResponseBodyView { api_versions: self.api_versions@, tag_buffer: self.tag_buffer }
    }
}

impl ResponseBody {
    /// The number of bytes of this body on the wire. The body must be small
    /// enough for that number to be a `usize`.
    pub fn size(&self) -> (n: usize)
        requires
            self@.size() <= usize::MAX,
        ensures
            n == self@.size(),
            n == self@.wire().len(),
    {
        proof {
            self@.lemma_size();
        }
        self.api_versions.size() + 1 * 2
    }

    /// This body as it stands on the wire.
    pub fn to_bytes(&self) -> (bytes: Vec<u8>)
        ensures
            bytes@ == self@.wire(),
    {
        let mut result: Vec<u8> = Vec::new();
        let mut section = self.api_versions.to_bytes();
        result.append(&mut section);
        put_i8(&mut result, self.tag_buffer);
        put_i8(&mut result, self.tag_buffer);
        result
    }
}

/// A response: the size of what follows, the header, the body.
#[derive(Debug, PartialEq, Eq)]
pub struct Response {
    pub message_size: i32,
    pub header: ResponseHeader,
    pub body: ResponseBody,
}

/// What a [`Response`] holds.
pub struct ResponseView {
    pub message_size: i32,
    pub header: ResponseHeader,
    pub body: ResponseBodyView,
}

impl ResponseView {
    /// The announced size is the number of bytes of header and body, and
    /// the announced count of entries is their number.
    pub open spec fn wf(self) -> bool {
        &&& self.message_size as int == self.header.wire().len() + self.body.wire().len()
        &&& self.body.api_versions.wf()
    }

    /// The response on the wire: size, header, body.
    pub open spec fn wire(self) -> Seq<u8> {
        be_bytes_i32(self.message_size) + self.header.wire() + self.body.wire()
    }
}

impl View for Response {
    type V = ResponseView;

    open spec fn view(&self) -> ResponseView {
        ResponseView { message_size: self.message_size, header: self.header, body: self.body@ }
    }
}

impl Response {
    /// This response as it stands on the wire. The size is written as it
    /// is, whether or not it is the number of the bytes behind it.
    pub fn to_bytes(&self) -> (bytes: Vec<u8>)
        ensures
            bytes@ == self@.wire(),
    {
        let mut result: Vec<u8> = Vec::new();
        put_i32(&mut result, self.message_size);
        let mut header = self.header.to_bytes();
        result.append(&mut header);
        let mut body = self.body.to_bytes();
        result.append(&mut body);
        result
    }
}

} // verus!
