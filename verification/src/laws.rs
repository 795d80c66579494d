//! What holds of every request, every response and every session.

use crate::connection::{
    spec_respond, spec_run, spec_session, spec_step, ConnectionActionView, ConnectionEventView,
    ConnectionState,
};
use crate::decode::{entries_from_wire, lemma_entries_round_trip};
use crate::error::ProtocolError;
use crate::negotiation::{spec_response, spec_supported_api_keys};
use crate::request::{spec_parse_request, RequestView};
use crate::response::{entries_wire, ApiKeys, ErrorCode, ResponseView};
use crate::wire::{
    be_bytes_i16, be_bytes_i32, i16_from_be, i32_from_be, lemma_i16_round_trip,
    lemma_i32_round_trip,
};
use vstd::prelude::*;

verus! {

/// A request for a version from 0 to 4 is answered with no error: the
/// response holds `NoError`, and the error code on the wire is 0.
pub proof fn lemma_supported_version_is_accepted(request: RequestView)
    requires
        0 <= request.header.request_api_version <= 4,
    ensures
        spec_response(request).body.api_versions.error_code == ErrorCode::NoError,
        spec_response(request).wire().subrange(8, 10) == be_bytes_i16(0),
        i16_from_be(spec_response(request).wire().subrange(8, 10)) == 0,
{
    let response = spec_response(request);
    lemma_i16_round_trip(0);
    assert(response.wire().subrange(8, 10) =~= be_bytes_i16(0));
}

/// A request for any other version, negative or above 4, is answered with
/// `UnsupportedVersion`, and the error code on the wire is 35.
pub proof fn lemma_other_version_is_refused(request: RequestView)
    requires
        !(0 <= request.header.request_api_version <= 4),
    ensures
        spec_response(request).body.api_versions.error_code == ErrorCode::UnsupportedVersion,
        spec_response(request).wire().subrange(8, 10) == be_bytes_i16(35),
        i16_from_be(spec_response(request).wire().subrange(8, 10)) == 35,
{
    let response = spec_response(request);
    lemma_i16_round_trip(35);
    assert(response.wire().subrange(8, 10) =~= be_bytes_i16(35));
}

/// Whatever the version, the response differs in nothing but its error code.
pub proof fn lemma_version_touches_only_error_code(a: RequestView, b: RequestView)
    requires
        a.header.correlation_id == b.header.correlation_id,
    ensures
        spec_response(a).wire().subrange(0, 8) == spec_response(b).wire().subrange(0, 8),
        spec_response(a).wire().subrange(10, 29) == spec_response(b).wire().subrange(10, 29),
        spec_response(a).wire().len() == 29,
{
    lemma_response_is_well_formed(a);
    lemma_response_is_well_formed(b);
    let wa = spec_response(a).wire();
    let wb = spec_response(b).wire();
    assert(wa.subrange(0, 8) =~= wb.subrange(0, 8));
    assert(wa.subrange(10, 29) =~= wb.subrange(10, 29));
}

/// Encoding a table and decoding it again gives the same entries in the
/// same order.
pub proof fn lemma_table_round_trip(table: Seq<ApiKeys>)
    ensures
        entries_from_wire(entries_wire(table)) == table,
{
    lemma_entries_round_trip(table);
}

/// Encoding the response to a request and decoding it again gives the
/// response back, and with it the table of supported APIs, entry for entry.
pub proof fn lemma_response_round_trip(request: RequestView)
    ensures
        ResponseView::from_wire(spec_response(request).wire()) == Some(spec_response(request)),
        spec_response(request).body.api_versions.api_keys == spec_supported_api_keys(),
{
    lemma_response_is_well_formed(request);
    spec_response(request).lemma_round_trip();
}

/// The decoder takes the encodings of well-formed responses and nothing
/// else: what it decodes is well formed and encodes to the very bytes it
/// was decoded from, and every well-formed response is decoded from its
/// encoding.
pub proof fn lemma_decoder_inverts_encoder(bytes: Seq<u8>, response: ResponseView)
    ensures
        ResponseView::from_wire(bytes) == Some(response) <==> response.wf() && response.wire()
            == bytes,
{
    if ResponseView::from_wire(bytes) == Some(response) {
        ResponseView::lemma_wire_of_decoded(bytes);
    }
    if response.wf() && response.wire() == bytes {
        response.lemma_round_trip();
    }
}

/// The response to a request is well formed: it announces its own size
/// and the number of its entries.
pub proof fn lemma_response_is_well_formed(request: RequestView)
    ensures
        spec_response(request).wf(),
        spec_response(request).message_size == 25,
{
    let response = spec_response(request);
    response.body.lemma_size();
}

/// The size that a well-formed response announces is the number of its
/// bytes on the wire less the four of the announcement itself.
pub proof fn lemma_message_size_is_length(response: ResponseView)
    requires
        response.wf(),
    ensures
        response.message_size == response.wire().len() - 4,
        i32_from_be(response.wire().subrange(0, 4)) == response.wire().len() - 4,
{
    lemma_i32_round_trip(response.message_size);
    assert(response.wire().subrange(0, 4) =~= be_bytes_i32(response.message_size));
}

/// The response to a request carries the request's correlation id, in the
/// header and on the wire.
pub proof fn lemma_correlation_id_is_echoed(request: RequestView)
    ensures
        spec_response(request).header.correlation_id == request.header.correlation_id,
        spec_response(request).wire().subrange(4, 8) == be_bytes_i32(
            request.header.correlation_id,
        ),
        i32_from_be(spec_response(request).wire().subrange(4, 8))
            == request.header.correlation_id,
{
    lemma_i32_round_trip(request.header.correlation_id);
    assert(spec_response(request).wire().subrange(4, 8) =~= be_bytes_i32(
        request.header.correlation_id,
    ));
}

/// On a connection that delivers one well-formed request after the other,
/// every request is answered before the next is read, the answers come in
/// the order of the requests, and each carries the correlation id of its
/// own request. The connection ends where it began: waiting for a frame.
pub proof fn lemma_session_answers_in_order(frames: Seq<Seq<u8>>)
    requires
        forall|k: int| 0 <= k < frames.len() ==> (#[trigger] spec_parse_request(frames[k])) is Ok,
    ensures
        spec_run(ConnectionState::AwaitingFrame, spec_session(frames)).0
            == ConnectionState::AwaitingFrame,
        spec_run(ConnectionState::AwaitingFrame, spec_session(frames)).1.len() == 2 * frames.len(),
        forall|k: int|
            0 <= k < frames.len() ==> {
                let actions = spec_run(ConnectionState::AwaitingFrame, spec_session(frames)).1;
                let request = spec_parse_request(#[trigger] frames[k])->Ok_0;
                &&& actions[2 * k] == ConnectionActionView::WriteResponse(
                    spec_response(request).wire(),
                )
                &&& i32_from_be(spec_response(request).wire().subrange(4, 8))
                    == request.header.correlation_id
                &&& actions[2 * k + 1] == ConnectionActionView::ReadFrame
            },
    decreases frames.len(),
{
    let events = spec_session(frames);
    if frames.len() > 0 {
        let rest = frames.drop_first();
        let first = spec_parse_request(frames[0])->Ok_0;
        assert(events.first() == ConnectionEventView::FrameRead(frames[0]));
        assert(spec_respond(frames[0]) == Ok::<Seq<u8>, ProtocolError>(spec_response(first).wire()));
        let after_read = events.drop_first();
        assert(after_read.first() == ConnectionEventView::ResponseWritten);
        assert(after_read.drop_first() =~= spec_session(rest)) by {
            assert forall|i: int| 0 <= i < 2 * rest.len() implies after_read.drop_first()[i]
                == spec_session(rest)[i] by {
                assert(after_read.drop_first()[i] == events[i + 2]);
                assert((i + 2) / 2 == i / 2 + 1);
                assert((i + 2) % 2 == i % 2);
                assert(rest[i / 2] == frames[i / 2 + 1]);
            }
        }
        assert forall|k: int| 0 <= k < rest.len() implies (#[trigger] spec_parse_request(
            rest[k],
        )) is Ok by {
            assert(rest[k] == frames[k + 1]);
        }
        lemma_session_answers_in_order(rest);
        let tail = spec_run(ConnectionState::AwaitingFrame, spec_session(rest));
        let all = spec_run(ConnectionState::AwaitingFrame, events);
        assert(spec_step(ConnectionState::Responding, after_read.first()) is Some);
        assert(spec_run(ConnectionState::Responding, after_read) == (
            tail.0,
            seq![ConnectionActionView::ReadFrame] + tail.1,
        ));
        assert(all.1 =~= seq![
            ConnectionActionView::WriteResponse(spec_response(first).wire()),
            ConnectionActionView::ReadFrame,
        ] + tail.1);
        assert forall|k: int| 0 <= k < frames.len() implies {
            let request = spec_parse_request(#[trigger] frames[k])->Ok_0;
            &&& all.1[2 * k] == ConnectionActionView::WriteResponse(spec_response(request).wire())
            &&& i32_from_be(spec_response(request).wire().subrange(4, 8))
                == request.header.correlation_id
            &&& all.1[2 * k + 1] == ConnectionActionView::ReadFrame
        } by {
            lemma_correlation_id_is_echoed(spec_parse_request(frames[k])->Ok_0);
            if k > 0 {
                assert(frames[k] == rest[k - 1]);
                assert(all.1[2 * k] == tail.1[2 * (k - 1)]);
                assert(all.1[2 * k + 1] == tail.1[2 * (k - 1) + 1]);
            }
        }
    }
}

} // verus!
