//! Decoding a response, for the side that receives one, and the proof that
//! decoding undoes encoding.

use crate::response::{
    entries_wire, lemma_entries_wire_len, ApiKeys, ApiVersions, ApiVersionsView, ErrorCode,
    Response, ResponseBody, ResponseBodyView, ResponseHeader, ResponseView,
};
use crate::wire::{
    be_bytes_i16, be_bytes_i32, be_bytes_i8, get_i16, get_i32, get_i8, i16_from_be, i32_from_be,
    i8_from_be, lemma_i16_bytes_round_trip, lemma_i16_round_trip, lemma_i32_bytes_round_trip,
    lemma_i32_round_trip, lemma_i8_bytes_round_trip, lemma_i8_round_trip,
};
use vstd::prelude::*;
use vstd::slice::slice_subrange;

verus! {

impl ErrorCode {
    /// The outcome that `code` stands for, if it is one.
    pub open spec fn spec_from_code(code: i16) -> Option<ErrorCode> {
        if code == 0 {
            Some(ErrorCode::NoError)
        } else if code == 35 {
            Some(ErrorCode::UnsupportedVersion)
        } else {
            None
        }
    }

    /// The outcome that `code` stands for; `None` for every other number.
    pub fn from_code(code: i16) -> (r: Option<ErrorCode>)
        ensures
            r == Self::spec_from_code(code),
    {
        if code == 0 {
            Some(ErrorCode::NoError)
        } else if code == 35 {
            Some(ErrorCode::UnsupportedVersion)
        } else {
            None
        }
    }
}

impl ApiKeys {
    /// The entry that the first six bytes of `b` encode.
    pub open spec fn from_wire(b: Seq<u8>) -> ApiKeys
        recommends
            b.len() == 6,
    {
        ApiKeys {
            api_key: i16_from_be(b.subrange(0, 2)),
            min_version: i16_from_be(b.subrange(2, 4)),
            max_version: i16_from_be(b.subrange(4, 6)),
        }
    }

    /// Decodes an entry from the six bytes that hold it. `None` where
    /// `bytes` are more or fewer than six.
    pub fn from_bytes(bytes: &[u8]) -> (r: Option<ApiKeys>)
        ensures
            r == if bytes@.len() == 6 {
                Some(ApiKeys::from_wire(bytes@))
            } else {
                None
            },
    {
        if bytes.len() != 6 {
            return None;
        }
        proof {
            assert(bytes@.subrange(0, 6) =~= bytes@);
        }
        Some(
            ApiKeys {
                api_key: get_i16(bytes, 0),
                min_version: get_i16(bytes, 2),
                max_version: get_i16(bytes, 4),
            },
        )
    }

    /// Decoding an encoded entry gives the entry back.
    pub proof fn lemma_round_trip(self)
        ensures
            self.wire().len() == 6,
            ApiKeys::from_wire(self.wire()) == self,
    {
        let b = self.wire();
        lemma_i16_round_trip(self.api_key);
        lemma_i16_round_trip(self.min_version);
        lemma_i16_round_trip(self.max_version);
        assert(b.subrange(0, 2) =~= be_bytes_i16(self.api_key));
        assert(b.subrange(2, 4) =~= be_bytes_i16(self.min_version));
        assert(b.subrange(4, 6) =~= be_bytes_i16(self.max_version));
    }

    /// Six bytes are the encoding of the entry that they decode to.
    pub proof fn lemma_wire_of_decoded(b: Seq<u8>)
        requires
            b.len() == 6,
        ensures
            ApiKeys::from_wire(b).wire() == b,
    {
        lemma_i16_bytes_round_trip(b.subrange(0, 2));
        lemma_i16_bytes_round_trip(b.subrange(2, 4));
        lemma_i16_bytes_round_trip(b.subrange(4, 6));
        assert(ApiKeys::from_wire(b).wire() =~= b);
    }
}

/// The table that `b` encodes: one entry for every six bytes, in order.
pub open spec fn entries_from_wire(b: Seq<u8>) -> Seq<ApiKeys> {
    Seq::new((b.len() / 6) as nat, |i: int| ApiKeys::from_wire(b.subrange(6 * i, 6 * i + 6)))
}

/// In an encoded table, the six bytes at the place of entry `i` are the
/// encoding of that entry.
pub proof fn lemma_entries_wire_at(keys: Seq<ApiKeys>, i: int)
    requires
        0 <= i < keys.len(),
    ensures
        entries_wire(keys).len() == 6 * keys.len(),
        entries_wire(keys).subrange(6 * i, 6 * i + 6) == keys[i].wire(),
    decreases keys.len(),
{
    let front = keys.drop_last();
    lemma_entries_wire_len(keys);
    lemma_entries_wire_len(front);
    keys.last().lemma_round_trip();
    if i == keys.len() - 1 {
        assert(entries_wire(keys).subrange(6 * i, 6 * i + 6) =~= keys.last().wire());
    } else {
        lemma_entries_wire_at(front, i);
        assert(entries_wire(keys).subrange(6 * i, 6 * i + 6) =~= entries_wire(front).subrange(
            6 * i,
            6 * i + 6,
        ));
    }
}

/// Decoding an encoded table gives the table back, entry for entry and in
/// the same order.
pub proof fn lemma_entries_round_trip(keys: Seq<ApiKeys>)
    ensures
        entries_from_wire(entries_wire(keys)) == keys,
{
    let b = entries_wire(keys);
    lemma_entries_wire_len(keys);
    assert forall|i: int| 0 <= i < keys.len() implies #[trigger] entries_from_wire(b)[i]
        == keys[i] by {
        lemma_entries_wire_at(keys, i);
        keys[i].lemma_round_trip();
    }
    assert(entries_from_wire(b) =~= keys);
}

/// Bytes that come in sixes are the encoding of the table that they
/// decode to.
pub proof fn lemma_entries_wire_of_decoded(b: Seq<u8>)
    requires
        b.len() % 6 == 0,
    ensures
        entries_wire(entries_from_wire(b)) == b,
    decreases b.len(),
{
    let keys = entries_from_wire(b);
    if b.len() == 0 {
        assert(entries_wire(keys) =~= b);
    } else {
        let n = b.len() as int / 6;
        let front = b.subrange(0, b.len() - 6);
        let back = b.subrange(b.len() - 6, b.len() as int);
        assert(keys.len() == n);
        assert(keys.drop_last() =~= entries_from_wire(front)) by {
            assert forall|i: int| 0 <= i < n - 1 implies keys[i] == #[trigger] entries_from_wire(
                front,
            )[i] by {
                assert(front.subrange(6 * i, 6 * i + 6) =~= b.subrange(6 * i, 6 * i + 6));
            }
        }
        assert(keys.last() == ApiKeys::from_wire(back)) by {
            assert(b.subrange(6 * (n - 1), 6 * (n - 1) + 6) =~= back);
        }
        lemma_entries_wire_of_decoded(front);
        ApiKeys::lemma_wire_of_decoded(back);
        assert(front + back =~= b);
    }
}

impl ApiVersionsView {
    /// The section that `b` encodes, if it encodes one: a known error code,
    /// a count that is not negative, as many entries as the count says, the
    /// throttle time, and nothing else.
    pub open spec fn from_wire(b: Seq<u8>) -> Option<ApiVersionsView> {
        if b.len() < 7 {
            None
        } else {
            let n = i8_from_be(b.subrange(2, 3));
            match ErrorCode::spec_from_code(i16_from_be(b.subrange(0, 2))) {
                None => None,
                Some(error_code) => if n < 0 || b.len() != 7 + 6 * n {
                    None
                } else {
                    Some(
                        ApiVersionsView {
                            error_code,
                            num_api_keys: n,
                            api_keys: entries_from_wire(b.subrange(3, 3 + 6 * n)),
                            throttle_time_ms: i32_from_be(b.subrange(3 + 6 * n, 7 + 6 * n)),
                        },
                    )
                },
            }
        }
    }

    /// Decoding an encoded section gives the section back.
    pub proof fn lemma_round_trip(self)
        requires
            self.wf(),
        ensures
            ApiVersionsView::from_wire(self.wire()) == Some(self),
    {
        let b = self.wire();
        let n = self.api_keys.len() as int;
        self.lemma_size();
        lemma_entries_wire_len(self.api_keys);
        lemma_i16_round_trip(self.error_code.spec_code());
        lemma_i8_round_trip(self.num_api_keys);
        lemma_i32_round_trip(self.throttle_time_ms);
        lemma_entries_round_trip(self.api_keys);
        assert(b.subrange(0, 2) =~= be_bytes_i16(self.error_code.spec_code()));
        assert(b.subrange(2, 3) =~= be_bytes_i8(self.num_api_keys));
        assert(b.subrange(3, 3 + 6 * n) =~= entries_wire(self.api_keys));
        assert(b.subrange(3 + 6 * n, 7 + 6 * n) =~= be_bytes_i32(self.throttle_time_ms));
    }

    /// Bytes that decode to a section are the encoding of that section, and
    /// the section is well formed.
    pub proof fn lemma_wire_of_decoded(b: Seq<u8>)
        requires
            ApiVersionsView::from_wire(b) is Some,
        ensures
            ApiVersionsView::from_wire(b)->0.wf(),
            ApiVersionsView::from_wire(b)->0.wire() == b,
    {
        let section = ApiVersionsView::from_wire(b)->0;
        let n = section.num_api_keys as int;
        let table = b.subrange(3, 3 + 6 * n);
        assert(table.len() / 6 == n);
        lemma_i16_bytes_round_trip(b.subrange(0, 2));
        lemma_i8_bytes_round_trip(b.subrange(2, 3));
        lemma_entries_wire_of_decoded(table);
        lemma_i32_bytes_round_trip(b.subrange(3 + 6 * n, 7 + 6 * n));
        assert(section.wire() =~= b);
    }
}

impl ApiVersions {
    /// Decodes a section from the bytes that hold it and nothing else.
    /// `None` where they are not the encoding of a well-formed section.
    pub fn from_bytes(bytes: &[u8]) -> (r: Option<ApiVersions>)
        ensures
            r matches Some(section) ==> ApiVersionsView::from_wire(bytes@) == Some(section@)
                && section@.wf() && section@.wire() == bytes@,
            r is None ==> ApiVersionsView::from_wire(bytes@) is None,
    {
        if bytes.len() < 7 {
            return None;
        }
        let error_code = match ErrorCode::from_code(get_i16(bytes, 0)) {
            Some(error_code) => error_code,
            None => {
                return None;
            },
        };
        let num_api_keys: i8 = get_i8(bytes, 2);
        if num_api_keys < 0 {
            return None;
        }
        let n: usize = num_api_keys as usize;
        if bytes.len() != 7 + 6 * n {
            return None;
        }
        let ghost table = bytes@.subrange(3, 3 + 6 * n);
        let mut api_keys: Vec<ApiKeys> = Vec::new();
        let mut i: usize = 0;
        while i < n
            invariant
                i <= n,
                n <= 127,
                bytes@.len() == 7 + 6 * n,
                table == bytes@.subrange(3, 3 + 6 * n),
                api_keys@.len() == i,
                forall|j: int|
                    0 <= j < i ==> #[trigger] api_keys@[j] == ApiKeys::from_wire(
                        table.subrange(6 * j, 6 * j + 6),
                    ),
            decreases n - i,
        {
            let entry = match ApiKeys::from_bytes(slice_subrange(bytes, 3 + 6 * i, 9 + 6 * i)) {
                Some(entry) => entry,
                None => {
                    return None;
                },
            };
            proof {
                assert(table.subrange(6 * i, 6 * i + 6) =~= bytes@.subrange(3 + 6 * i, 9 + 6 * i));
            }
            api_keys.push(entry);
            i = i + 1;
        }
        let throttle_time_ms: i32 = get_i32(bytes, 3 + 6 * n);
        proof {
            assert(api_keys@ =~= entries_from_wire(table));
            ApiVersionsView::lemma_wire_of_decoded(bytes@);
        }
        Some(ApiVersions { error_code, num_api_keys, api_keys, throttle_time_ms })
    }
}

impl ResponseBodyView {
    /// The body that `b` encodes, if it encodes one: a section of supported
    /// APIs, then the same reserved byte twice.
    pub open spec fn from_wire(b: Seq<u8>) -> Option<ResponseBodyView> {
        if b.len() < 2 {
            None
        } else {
            let k = b.len() - 2;
            let tag_buffer = i8_from_be(b.subrange(k, k + 1));
            match ApiVersionsView::from_wire(b.subrange(0, k)) {
                None => None,
                Some(api_versions) => if i8_from_be(b.subrange(k + 1, k + 2)) != tag_buffer {
                    None
                } else {
                    Some(ResponseBodyView { api_versions, tag_buffer })
                },
            }
        }
    }

    /// Decoding an encoded body gives the body back.
    pub proof fn lemma_round_trip(self)
        requires
            self.api_versions.wf(),
        ensures
            ResponseBodyView::from_wire(self.wire()) == Some(self),
    {
        let b = self.wire();
        let k = b.len() - 2;
        self.lemma_size();
        self.api_versions.lemma_size();
        self.api_versions.lemma_round_trip();
        lemma_i8_round_trip(self.tag_buffer);
        assert(b.subrange(0, k) =~= self.api_versions.wire());
        assert(b.subrange(k, k + 1) =~= be_bytes_i8(self.tag_buffer));
        assert(b.subrange(k + 1, k + 2) =~= be_bytes_i8(self.tag_buffer));
    }

    /// Bytes that decode to a body are the encoding of that body, and its
    /// section is well formed.
    pub proof fn lemma_wire_of_decoded(b: Seq<u8>)
        requires
            ResponseBodyView::from_wire(b) is Some,
        ensures
            ResponseBodyView::from_wire(b)->0.api_versions.wf(),
            ResponseBodyView::from_wire(b)->0.wire() == b,
    {
        let body = ResponseBodyView::from_wire(b)->0;
        let k = b.len() - 2;
        ApiVersionsView::lemma_wire_of_decoded(b.subrange(0, k));
        lemma_i8_bytes_round_trip(b.subrange(k, k + 1));
        lemma_i8_bytes_round_trip(b.subrange(k + 1, k + 2));
        assert(body.wire() =~= b);
    }
}

impl ResponseBody {
    /// Decodes a body from the bytes that hold it and nothing else. `None`
    /// where they are not the encoding of a body with a well-formed section.
    pub fn from_bytes(bytes: &[u8]) -> (r: Option<ResponseBody>)
        ensures
            r matches Some(body) ==> ResponseBodyView::from_wire(bytes@) == Some(body@)
                && body@.api_versions.wf() && body@.wire() == bytes@,
            r is None ==> ResponseBodyView::from_wire(bytes@) is None,
    {
        if bytes.len() < 2 {
            return None;
        }
        let k: usize = bytes.len() - 2;
        let api_versions = match ApiVersions::from_bytes(slice_subrange(bytes, 0, k)) {
            Some(api_versions) => api_versions,
            None => {
                return None;
            },
        };
        let tag_buffer: i8 = get_i8(bytes, k);
        if get_i8(bytes, k + 1) != tag_buffer {
            return None;
        }
        proof {
            ResponseBodyView::lemma_wire_of_decoded(bytes@);
        }
        Some(ResponseBody { api_versions, tag_buffer })
    }
}

impl ResponseView {
    /// The response that `b` encodes, if it encodes one: a size that is the
    /// number of bytes behind it, the correlation id, a body.
    pub open spec fn from_wire(b: Seq<u8>) -> Option<ResponseView> {
        if b.len() < 8 {
            None
        } else {
            let message_size = i32_from_be(b.subrange(0, 4));
            let header = ResponseHeader { correlation_id: i32_from_be(b.subrange(4, 8)) };
            if message_size != b.len() - 4 {
                None
            } else {
                match ResponseBodyView::from_wire(b.subrange(8, b.len() as int)) {
                    None => None,
                    Some(body) => Some(ResponseView { message_size, header, body }),
                }
            }
        }
    }

    /// Decoding an encoded response gives the response back.
    pub proof fn lemma_round_trip(self)
        requires
            self.wf(),
        ensures
            ResponseView::from_wire(self.wire()) == Some(self),
    {
        let b = self.wire();
        self.body.lemma_size();
        self.body.lemma_round_trip();
        lemma_i32_round_trip(self.message_size);
        lemma_i32_round_trip(self.header.correlation_id);
        assert(b.subrange(0, 4) =~= be_bytes_i32(self.message_size));
        assert(b.subrange(4, 8) =~= be_bytes_i32(self.header.correlation_id));
        assert(b.subrange(8, b.len() as int) =~= self.body.wire());
    }

    /// Bytes that decode to a response are the encoding of that response,
    /// and the response is well formed.
    pub proof fn lemma_wire_of_decoded(b: Seq<u8>)
        requires
            ResponseView::from_wire(b) is Some,
        ensures
            ResponseView::from_wire(b)->0.wf(),
            ResponseView::from_wire(b)->0.wire() == b,
    {
        let response = ResponseView::from_wire(b)->0;
        ResponseBodyView::lemma_wire_of_decoded(b.subrange(8, b.len() as int));
        lemma_i32_bytes_round_trip(b.subrange(0, 4));
        lemma_i32_bytes_round_trip(b.subrange(4, 8));
        assert(response.wire() =~= b);
    }
}

impl Response {
    /// Decodes a response from the bytes that hold it and nothing else.
    /// `None` where they are not the encoding of a well-formed response.
    pub fn from_bytes(bytes: &[u8]) -> (r: Option<Response>)
        ensures
            r matches Some(response) ==> ResponseView::from_wire(bytes@) == Some(response@)
                && response@.wf() && response@.wire() == bytes@,
            r is None ==> ResponseView::from_wire(bytes@) is None,
    {
        if bytes.len() < 8 {
            return None;
        }
        let message_size: i32 = get_i32(bytes, 0);
        let header = ResponseHeader { correlation_id: get_i32(bytes, 4) };
        if message_size < 0 || message_size as usize != bytes.len() - 4 {
            return None;
        }
        match ResponseBody::from_bytes(slice_subrange(bytes, 8, bytes.len())) {
            Some(body) => {
                proof {
                    ResponseView::lemma_wire_of_decoded(bytes@);
                }
                Some(Response { message_size, header, body })
            },
            None => None,
        }
    }
}

} // verus!
