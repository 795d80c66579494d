use kafka_handshake::{
    accept, respond, step, ConnectionAction, ConnectionEvent, ConnectionState, ProtocolError,
    Response, Transition,
};

fn frame(version: i16, correlation_id: i32, client_id: Option<&str>) -> Vec<u8> {
    let mut message = Vec::new();
    message.extend_from_slice(&18i16.to_be_bytes());
    message.extend_from_slice(&version.to_be_bytes());
    message.extend_from_slice(&correlation_id.to_be_bytes());
    match client_id {
        Some(id) => {
            message.extend_from_slice(&(id.len() as i16).to_be_bytes());
            message.extend_from_slice(id.as_bytes());
        }
        None => message.extend_from_slice(&(-1i16).to_be_bytes()),
    }
    let mut received = (message.len() as i32).to_be_bytes().to_vec();
    received.extend_from_slice(&message);
    received
}

fn written(transition: &Transition) -> Vec<u8> {
    match &transition.action {
        ConnectionAction::WriteResponse(bytes) => bytes.clone(),
        other => panic!("expected a write, got {:?}", other),
    }
}

#[test]
fn accepted_connection_waits_for_a_frame() {
    assert_eq!(
        accept(),
        Transition { state: ConnectionState::AwaitingFrame, action: ConnectionAction::ReadFrame }
    );
}

#[test]
fn respond_answers_a_request() {
    let bytes = respond(&frame(4, 7, None)).unwrap();
    assert_eq!(
        bytes,
        vec![
            0, 0, 0, 0x19, 0, 0, 0, 7, 0, 0, 2, 0, 0x12, 0, 0, 0, 4, 0, 1, 0, 0, 0, 0x10, 0, 0, 0,
            0, 0, 0
        ]
    );
    let bytes = respond(&frame(9999, 7, Some("hello"))).unwrap();
    assert_eq!(&bytes[8..10], &[0x00, 0x23]);
}

#[test]
fn respond_passes_on_why_a_request_could_not_be_read() {
    assert_eq!(respond(&[0, 0]), Err(ProtocolError::ConnectionClosed));
    assert_eq!(
        respond(&[0x80, 0, 0, 0]),
        Err(ProtocolError::MalformedFrame)
    );
    assert_eq!(
        respond(&[0, 0, 0, 1, 0]),
        Err(ProtocolError::TruncatedHeader)
    );
    let mut bad = frame(4, 7, Some("x"));
    let last = bad.len() - 1;
    bad[last] = 0xFF;
    assert_eq!(respond(&bad), Err(ProtocolError::MalformedClientId));
}

#[test]
fn frame_moves_to_responding() {
    let t = step(
        ConnectionState::AwaitingFrame,
        &ConnectionEvent::FrameRead(frame(4, 7, None)),
    )
    .unwrap();
    assert_eq!(t.state, ConnectionState::Responding);
    assert_eq!(written(&t), respond(&frame(4, 7, None)).unwrap());
}

#[test]
fn finished_write_moves_back_to_awaiting_frame() {
    assert_eq!(
        step(ConnectionState::Responding, &ConnectionEvent::ResponseWritten),
        Some(Transition {
            state: ConnectionState::AwaitingFrame,
            action: ConnectionAction::ReadFrame
        })
    );
}

#[test]
fn failed_write_closes_the_connection() {
    assert_eq!(
        step(ConnectionState::Responding, &ConnectionEvent::WriteFailed),
        Some(Transition {
            state: ConnectionState::Closed,
            action: ConnectionAction::Close(ProtocolError::ConnectionClosed)
        })
    );
}

#[test]
fn unreadable_frame_closes_the_connection() {
    let cases: Vec<(Vec<u8>, ProtocolError)> = vec![
        (vec![], ProtocolError::ConnectionClosed),
        (vec![0, 0, 0, 10, 0, 0x12], ProtocolError::ConnectionClosed),
        (vec![0xFF, 0xFF, 0xFF, 0xFF], ProtocolError::MalformedFrame),
        (vec![0, 0, 0, 3, 1, 2, 3], ProtocolError::TruncatedHeader),
        (
            vec![0, 0, 0, 11, 0, 18, 0, 4, 0, 0, 0, 7, 0, 1, 0x80],
            ProtocolError::MalformedClientId,
        ),
    ];
    for (received, error) in cases {
        assert_eq!(
            step(ConnectionState::AwaitingFrame, &ConnectionEvent::FrameRead(received)),
            Some(Transition {
                state: ConnectionState::Closed,
                action: ConnectionAction::Close(error)
            })
        );
    }
}

#[test]
fn event_out_of_turn_has_no_transition() {
    assert_eq!(
        step(ConnectionState::AwaitingFrame, &ConnectionEvent::ResponseWritten),
        None
    );
    assert_eq!(
        step(ConnectionState::AwaitingFrame, &ConnectionEvent::WriteFailed),
        None
    );
    assert_eq!(
        step(
            ConnectionState::Responding,
            &ConnectionEvent::FrameRead(frame(4, 7, None))
        ),
        None
    );
    for event in [
        ConnectionEvent::FrameRead(frame(4, 7, None)),
        ConnectionEvent::ResponseWritten,
        ConnectionEvent::WriteFailed,
    ] {
        assert_eq!(step(ConnectionState::Closed, &event), None);
    }
}

#[test]
fn two_requests_are_answered_in_order() {
    let mut transition = accept();
    let mut responses = Vec::new();
    for id in [1, 2] {
        assert_eq!(transition.state, ConnectionState::AwaitingFrame);
        assert_eq!(transition.action, ConnectionAction::ReadFrame);
        transition = step(
            transition.state,
            &ConnectionEvent::FrameRead(frame(4, id, None)),
        )
        .unwrap();
        assert_eq!(transition.state, ConnectionState::Responding);
        responses.push(written(&transition));
        transition = step(transition.state, &ConnectionEvent::ResponseWritten).unwrap();
    }
    assert_eq!(transition.state, ConnectionState::AwaitingFrame);
    assert_eq!(responses.len(), 2);
    assert_eq!(&responses[0][4..8], &[0, 0, 0, 1]);
    assert_eq!(&responses[1][4..8], &[0, 0, 0, 2]);
    for (response, id) in responses.iter().zip([1, 2]) {
        let decoded = Response::from_bytes(response).unwrap();
        assert_eq!(decoded.header.correlation_id, id);
        assert_eq!(decoded.message_size as usize, response.len() - 4);
    }
}

#[test]
fn long_session_echoes_every_correlation_id() {
    let ids = [5, -1, 0, i32::MAX, i32::MIN, 5, 77, 1_000_000];
    let mut transition = accept();
    for (k, id) in ids.iter().enumerate() {
        let version = (k as i16) - 2;
        let client_id = if k % 2 == 0 { Some("client") } else { None };
        transition = step(
            transition.state,
            &ConnectionEvent::FrameRead(frame(version, *id, client_id)),
        )
        .unwrap();
        let decoded = Response::from_bytes(&written(&transition)).unwrap();
        assert_eq!(decoded.header.correlation_id, *id);
        assert_eq!(
            decoded.body.api_versions.error_code.code(),
            if (0..=4).contains(&version) { 0 } else { 35 }
        );
        transition = step(transition.state, &ConnectionEvent::ResponseWritten).unwrap();
        assert_eq!(transition, accept());
    }
}

#[test]
fn session_ends_at_the_first_bad_frame() {
    let mut transition = accept();
    transition = step(
        transition.state,
        &ConnectionEvent::FrameRead(frame(4, 1, None)),
    )
    .unwrap();
    transition = step(transition.state, &ConnectionEvent::ResponseWritten).unwrap();
    transition = step(
        transition.state,
        &ConnectionEvent::FrameRead(vec![0, 0, 0]),
    )
    .unwrap();
    assert_eq!(transition.state, ConnectionState::Closed);
    assert_eq!(
        transition.action,
        ConnectionAction::Close(ProtocolError::ConnectionClosed)
    );
    assert_eq!(
        step(
            transition.state,
            &ConnectionEvent::FrameRead(frame(4, 2, None))
        ),
        None
    );
}
