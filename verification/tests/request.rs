use kafka_handshake::{
    decode_request_header, decode_request_message, parse_message_size, parse_request,
    ProtocolError, Request, RequestHeader, MAX_FRAME_SIZE,
};

fn header_bytes(key: i16, version: i16, correlation_id: i32, id_len: i16, id: &[u8]) -> Vec<u8> {
    let mut buf = Vec::new();
    buf.extend_from_slice(&key.to_be_bytes());
    buf.extend_from_slice(&version.to_be_bytes());
    buf.extend_from_slice(&correlation_id.to_be_bytes());
    buf.extend_from_slice(&id_len.to_be_bytes());
    buf.extend_from_slice(id);
    buf
}

fn framed(message: &[u8]) -> Vec<u8> {
    let mut buf = (message.len() as i32).to_be_bytes().to_vec();
    buf.extend_from_slice(message);
    buf
}

#[test]
fn header_without_client_id_is_decoded_at_fixed_offsets() {
    let buf = [0x00, 0x12, 0x00, 0x04, 0x00, 0x00, 0x00, 0x07, 0xFF, 0xFF];
    assert_eq!(
        decode_request_header(&buf),
        Ok(RequestHeader {
            request_api_key: 18,
            request_api_version: 4,
            correlation_id: 7,
            client_id: None,
        })
    );
}

#[test]
fn client_id_of_five_bytes_is_decoded() {
    let buf = [
        0x00, 0x12, 0x00, 0x04, 0x00, 0x00, 0x00, 0x07, 0x00, 0x05, 0x68, 0x65, 0x6C, 0x6C, 0x6F,
    ];
    let header = decode_request_header(&buf).unwrap();
    assert_eq!(header.client_id, Some(String::from("hello")));
    assert_eq!(header.request_api_key, 18);
    assert_eq!(header.request_api_version, 4);
    assert_eq!(header.correlation_id, 7);
}

#[test]
fn client_id_length_minus_one_means_absent() {
    let buf = header_bytes(18, 4, 7, -1, b"");
    assert_eq!(decode_request_header(&buf).unwrap().client_id, None);
}

#[test]
fn client_id_length_zero_means_absent() {
    let buf = header_bytes(18, 4, 7, 0, b"ignored");
    assert_eq!(decode_request_header(&buf).unwrap().client_id, None);
}

#[test]
fn any_negative_client_id_length_means_absent() {
    for len in [-1i16, -2, -300, i16::MIN] {
        let buf = header_bytes(1, 2, 3, len, b"xyz");
        assert_eq!(decode_request_header(&buf).unwrap().client_id, None);
    }
}

#[test]
fn bytes_behind_the_client_id_are_not_read() {
    let mut buf = header_bytes(18, 3, 99, 2, b"ab");
    buf.extend_from_slice(&[0xFF, 0xFE, 0xFD]);
    assert_eq!(
        decode_request_header(&buf),
        Ok(RequestHeader {
            request_api_key: 18,
            request_api_version: 3,
            correlation_id: 99,
            client_id: Some(String::from("ab")),
        })
    );
}

#[test]
fn multi_byte_client_id_is_decoded_as_utf8() {
    let id = "grüße-日本-🦀";
    let buf = header_bytes(18, 0, 1, id.len() as i16, id.as_bytes());
    assert_eq!(
        decode_request_header(&buf).unwrap().client_id,
        Some(String::from(id))
    );
}

#[test]
fn negative_fields_are_decoded_in_twos_complement() {
    let buf = header_bytes(-2, -32768, -7, -1, b"");
    let header = decode_request_header(&buf).unwrap();
    assert_eq!(header.request_api_key, -2);
    assert_eq!(header.request_api_version, i16::MIN);
    assert_eq!(header.correlation_id, -7);
}

#[test]
fn header_of_fewer_than_ten_bytes_is_truncated() {
    let full = header_bytes(18, 4, 7, -1, b"");
    for len in 0..10 {
        assert_eq!(
            decode_request_header(&full[..len]),
            Err(ProtocolError::TruncatedHeader)
        );
    }
}

#[test]
fn client_id_longer_than_the_buffer_is_truncated() {
    let buf = header_bytes(18, 4, 7, 5, b"hell");
    assert_eq!(
        decode_request_header(&buf),
        Err(ProtocolError::TruncatedHeader)
    );
    let buf = header_bytes(18, 4, 7, i16::MAX, b"hello");
    assert_eq!(
        decode_request_header(&buf),
        Err(ProtocolError::TruncatedHeader)
    );
}

#[test]
fn client_id_that_is_not_utf8_is_malformed() {
    for bad in [
        &[0xFFu8][..],
        &[0xC3][..],
        &[0x68, 0x80, 0x6C][..],
        &[0xC0, 0xAF][..],
        &[0xED, 0xA0, 0x80][..],
        &[0xF5, 0x80, 0x80, 0x80][..],
    ] {
        let buf = header_bytes(18, 4, 7, bad.len() as i16, bad);
        assert_eq!(
            decode_request_header(&buf),
            Err(ProtocolError::MalformedClientId)
        );
    }
}

#[test]
fn truncation_is_reported_before_bad_utf8() {
    let buf = header_bytes(18, 4, 7, 3, &[0xFF, 0xFF]);
    assert_eq!(
        decode_request_header(&buf),
        Err(ProtocolError::TruncatedHeader)
    );
}

#[test]
fn message_size_is_read_big_endian() {
    assert_eq!(parse_message_size(&[0x00, 0x00, 0x00, 0x08]), Ok(8));
    assert_eq!(parse_message_size(&[0x00, 0x00, 0x01, 0x02]), Ok(258));
    assert_eq!(parse_message_size(&[0x00, 0x00, 0x00, 0x00]), Ok(0));
    assert_eq!(parse_message_size(&[0x00, 0x00, 0x00, 0x0A, 0x77]), Ok(10));
}

#[test]
fn message_size_of_a_short_prefix_is_connection_closed() {
    for len in 0..4 {
        assert_eq!(
            parse_message_size(&[0x00, 0x00, 0x00, 0x08][..len]),
            Err(ProtocolError::ConnectionClosed)
        );
    }
}

#[test]
fn negative_message_size_is_malformed() {
    assert_eq!(
        parse_message_size(&[0xFF, 0xFF, 0xFF, 0xFF]),
        Err(ProtocolError::MalformedFrame)
    );
    assert_eq!(
        parse_message_size(&[0x80, 0x00, 0x00, 0x00]),
        Err(ProtocolError::MalformedFrame)
    );
}

#[test]
fn message_size_above_the_limit_is_malformed() {
    assert_eq!(MAX_FRAME_SIZE, 100 * 1024 * 1024);
    assert_eq!(
        parse_message_size(&MAX_FRAME_SIZE.to_be_bytes()),
        Ok(MAX_FRAME_SIZE)
    );
    assert_eq!(
        parse_message_size(&(MAX_FRAME_SIZE + 1).to_be_bytes()),
        Err(ProtocolError::MalformedFrame)
    );
    assert_eq!(
        parse_message_size(&i32::MAX.to_be_bytes()),
        Err(ProtocolError::MalformedFrame)
    );
}

#[test]
fn message_is_decoded_from_its_first_bytes() {
    let mut message = header_bytes(18, 4, 7, 5, b"hello");
    let size = message.len() as i32;
    message.extend_from_slice(&[1, 2, 3]);
    assert_eq!(
        decode_request_message(size, &message),
        Ok(RequestHeader {
            request_api_key: 18,
            request_api_version: 4,
            correlation_id: 7,
            client_id: Some(String::from("hello")),
        })
    );
}

#[test]
fn message_shorter_than_announced_is_connection_closed() {
    let message = header_bytes(18, 4, 7, -1, b"");
    assert_eq!(
        decode_request_message(11, &message),
        Err(ProtocolError::ConnectionClosed)
    );
    assert_eq!(
        decode_request_message(1, &[]),
        Err(ProtocolError::ConnectionClosed)
    );
}

#[test]
fn message_of_implausible_size_is_malformed() {
    let message = header_bytes(18, 4, 7, -1, b"");
    assert_eq!(
        decode_request_message(-1, &message),
        Err(ProtocolError::MalformedFrame)
    );
    assert_eq!(
        decode_request_message(MAX_FRAME_SIZE + 1, &message),
        Err(ProtocolError::MalformedFrame)
    );
}

#[test]
fn announced_size_cuts_the_header_short() {
    let message = header_bytes(18, 4, 7, 5, b"hello");
    assert_eq!(
        decode_request_message(12, &message),
        Err(ProtocolError::TruncatedHeader)
    );
    assert_eq!(
        decode_request_message(9, &message),
        Err(ProtocolError::TruncatedHeader)
    );
    assert_eq!(
        decode_request_message(0, &message),
        Err(ProtocolError::TruncatedHeader)
    );
}

#[test]
fn request_is_parsed_from_prefix_and_message() {
    let received = framed(&header_bytes(18, 4, 7, -1, b""));
    assert_eq!(
        received,
        vec![0x00, 0x00, 0x00, 0x0A, 0x00, 0x12, 0x00, 0x04, 0x00, 0x00, 0x00, 0x07, 0xFF, 0xFF]
    );
    assert_eq!(
        parse_request(&received),
        Ok(Request {
            message_size: 10,
            header: RequestHeader {
                request_api_key: 18,
                request_api_version: 4,
                correlation_id: 7,
                client_id: None,
            },
        })
    );
}

#[test]
fn request_with_client_id_and_body_is_parsed() {
    let mut message = header_bytes(18, 4, 0x0102_0304, 5, b"hello");
    message.extend_from_slice(&[0xAB; 20]);
    let request = parse_request(&framed(&message)).unwrap();
    assert_eq!(request.message_size, 35);
    assert_eq!(request.header.correlation_id, 0x0102_0304);
    assert_eq!(request.header.client_id, Some(String::from("hello")));
}

#[test]
fn request_errors_come_from_the_first_stage_that_fails() {
    assert_eq!(parse_request(&[]), Err(ProtocolError::ConnectionClosed));
    assert_eq!(
        parse_request(&[0, 0, 0]),
        Err(ProtocolError::ConnectionClosed)
    );
    assert_eq!(
        parse_request(&[0xFF, 0xFF, 0xFF, 0xFF, 0, 0x12]),
        Err(ProtocolError::MalformedFrame)
    );
    assert_eq!(
        parse_request(&[0, 0, 0, 0x0A, 0, 0x12]),
        Err(ProtocolError::ConnectionClosed)
    );
    assert_eq!(
        parse_request(&[0, 0, 0, 2, 0, 0x12]),
        Err(ProtocolError::TruncatedHeader)
    );
    let bad_id = framed(&header_bytes(18, 4, 7, 1, &[0xFF]));
    assert_eq!(
        parse_request(&bad_id),
        Err(ProtocolError::MalformedClientId)
    );
}

#[test]
fn frame_that_announces_less_than_its_header_is_truncated() {
    let received = [
        0x00, 0x00, 0x00, 0x08, 0x00, 0x12, 0x00, 0x04, 0x00, 0x00, 0x00, 0x07, 0xFF, 0xFF,
    ];
    assert_eq!(parse_message_size(&received), Ok(8));
    assert_eq!(
        parse_request(&received),
        Err(ProtocolError::TruncatedHeader)
    );
}
