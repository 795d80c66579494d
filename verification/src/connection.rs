//! One connection: what to do next, given what the transport just did.
//!
//! The crate does no I/O. Whoever owns the socket performs the action that
//! a transition names and comes back with the event that ended it.

use crate::error::ProtocolError;
use crate::negotiation::{encode_response, spec_response};
use crate::request::{parse_request, spec_parse_request};
use vstd::prelude::*;

verus! {

/// Where a connection stands.
#[derive(Clone, Copy, Debug, PartialEq, Eq, Structural)]
pub enum ConnectionState {
    /// Waiting for the transport to deliver the next frame.
    AwaitingFrame,
    /// Waiting for the transport to finish writing a response.
    Responding,
    /// The connection has failed and is closed. Nothing leads here but a
    /// failure, and nothing leads on from here.
    Closed,
}

/// What the transport reports back.
#[derive(Debug, PartialEq, Eq)]
pub enum ConnectionEvent {
    /// The read ended. These are the bytes that the stream gave for one
    /// frame, from its length prefix on: all of the frame, or as much of it
    /// as came before the stream ended.
    FrameRead(Vec<u8>),
    /// The response was written in full.
    ResponseWritten,
    /// The write failed.
    WriteFailed,
}

/// What a [`ConnectionEvent`] holds.
pub enum ConnectionEventView {
    FrameRead(Seq<u8>),
    ResponseWritten,
    WriteFailed,
}

impl View for ConnectionEvent {
    type V = ConnectionEventView;

    open spec fn view(&self) -> ConnectionEventView {
        match self {
            ConnectionEvent::FrameRead(received) => ConnectionEventView::FrameRead(received@),
            ConnectionEvent::ResponseWritten => ConnectionEventView::ResponseWritten,
            ConnectionEvent::WriteFailed => ConnectionEventView::WriteFailed,
        }
    }
}

/// What the transport is asked to do next.
#[derive(Debug, PartialEq, Eq)]
pub enum ConnectionAction {
    /// Read the next frame.
    ReadFrame,
    /// Write these bytes, all of them.
    WriteResponse(Vec<u8>),
    /// Close the connection; this is why.
    Close(ProtocolError),
}

/// What a [`ConnectionAction`] holds.
pub enum ConnectionActionView {
    ReadFrame,
    WriteResponse(Seq<u8>),
    Close(ProtocolError),
}

impl View for ConnectionAction {
    type V = ConnectionActionView;

    open spec fn view(&self) -> ConnectionActionView {
        match self {
            ConnectionAction::ReadFrame => ConnectionActionView::ReadFrame,
            ConnectionAction::WriteResponse(bytes) => ConnectionActionView::WriteResponse(bytes@),
            ConnectionAction::Close(e) => ConnectionActionView::Close(*e),
        }
    }
}

/// The state that a connection moves to and the action that it asks for.
#[derive(Debug, PartialEq, Eq)]
pub struct Transition {
    pub state: ConnectionState,
    pub action: ConnectionAction,
}

/// What a [`Transition`] holds.
pub struct TransitionView {
    pub state: ConnectionState,
    pub action: ConnectionActionView,
}

impl View for Transition {
    type V = TransitionView;

    open spec fn view(&self) -> TransitionView {
        TransitionView { state: self.state, action: self.action@ }
    }
}

/// The bytes that answer the request in `received`, or the reason why
/// there is no answer.
pub open spec fn spec_respond(received: Seq<u8>) -> Result<Seq<u8>, ProtocolError> {
    match spec_parse_request(received) {
        Ok(request) => Ok(spec_response(request).wire()),
        Err(e) => Err(e),
    }
}

/// Where an accepted connection starts: it waits for its first frame.
pub open spec fn spec_accept() -> TransitionView {
    TransitionView { state: ConnectionState::AwaitingFrame, action: ConnectionActionView::ReadFrame }
}

/// The transition that `event` causes in `state`; `None` where `state` does
/// not wait for `event`.
///
/// A frame that holds a request is answered, and the connection waits for
/// the write. A frame that holds none closes the connection. A finished
/// write sends the connection back to wait for the next frame; a failed one
/// closes it.
pub open spec fn spec_step(state: ConnectionState, event: ConnectionEventView) -> Option<
    TransitionView,
> {
    match (state, event) {
        (ConnectionState::AwaitingFrame, ConnectionEventView::FrameRead(received)) => Some(
            match spec_respond(received) {
                Ok(bytes) => TransitionView {
                    state: ConnectionState::Responding,
                    action: ConnectionActionView::WriteResponse(bytes),
                },
                Err(e) => TransitionView {
                    state: ConnectionState::Closed,
                    action: ConnectionActionView::Close(e),
                },
            },
        ),
        (ConnectionState::Responding, ConnectionEventView::ResponseWritten) => Some(spec_accept()),
        (ConnectionState::Responding, ConnectionEventView::WriteFailed) => Some(
            TransitionView {
                state: ConnectionState::Closed,
                action: ConnectionActionView::Close(ProtocolError::ConnectionClosed),
            },
        ),
        _ => None,
    }
}

/// What a connection that starts in `state` does on `events`, one after
/// the other: the state it ends in and the actions it asked for, in order.
/// It stops at the first event that its state does not wait for.
pub open spec fn spec_run(state: ConnectionState, events: Seq<ConnectionEventView>) -> (
    ConnectionState,
    Seq<ConnectionActionView>,
)
    decreases events.len(),
{
    if events.len() == 0 {
        (state, Seq::empty())
    } else {
        match spec_step(state, events.first()) {
            None => (state, Seq::empty()),
            Some(t) => {
                let rest = spec_run(t.state, events.drop_first());
                (rest.0, seq![t.action] + rest.1)
            },
        }
    }
}

/// The events of a session in which the transport delivers `frames` one
/// after the other and writes every response in full.
pub open spec fn spec_session(frames: Seq<Seq<u8>>) -> Seq<ConnectionEventView> {
    Seq::new(
        2 * frames.len(),
        |i: int|
            if i % 2 == 0 {
                ConnectionEventView::FrameRead(frames[i / 2])
            } else {
                ConnectionEventView::ResponseWritten
            },
    )
}

/// Answers one request: reads it from what the stream gave for its frame,
/// negotiates, and encodes the response.
pub fn respond(received: &[u8]) -> (r: Result<Vec<u8>, ProtocolError>)
    ensures
        r matches Ok(bytes) ==> spec_respond(received@) == Ok::<Seq<u8>, ProtocolError>(bytes@),
        r matches Err(e) ==> spec_respond(received@) == Err::<Seq<u8>, ProtocolError>(e),
{
    match parse_request(received) {
        Ok(request) => {
            let response = encode_response(&request);
            Ok(response.to_bytes())
        },
        Err(e) => Err(e),
    }
}

/// The transition that starts an accepted connection.
pub fn accept() -> (t: Transition)
    ensures
        t@ == spec_accept(),
{
    Transition { state: ConnectionState::AwaitingFrame, action: ConnectionAction::ReadFrame }
}

/// Decides what a connection in `state` does on `event`. `None` where
/// `state` does not wait for `event`: a frame while a write is under way, the
/// end of a write while none is, anything on a closed connection.
pub fn step(state: ConnectionState, event: &ConnectionEvent) -> (r: Option<Transition>)
    ensures
        r matches Some(t) ==> spec_step(state, event@) == Some(t@),
        r is None ==> spec_step(state, event@) is None,
{
    match state {
        ConnectionState::AwaitingFrame => match event {
            ConnectionEvent::FrameRead(received) => match respond(received.as_slice()) {
                Ok(bytes) => Some(
                    Transition {
                        state: ConnectionState::Responding,
                        action: ConnectionAction::WriteResponse(bytes),
                    },
                ),
                Err(e) => Some(
                    Transition { state: ConnectionState::Closed, action: ConnectionAction::Close(e) },
                ),
            },
            _ => None,
        },
        ConnectionState::Responding => match event {
            ConnectionEvent::ResponseWritten => Some(accept()),
            ConnectionEvent::WriteFailed => Some(
                Transition {
                    state: ConnectionState::Closed,
                    action: ConnectionAction::Close(ProtocolError::ConnectionClosed),
                },
            ),
            _ => None,
        },
        ConnectionState::Closed => None,
    }
}

} // verus!
