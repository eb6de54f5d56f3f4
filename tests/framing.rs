use fridex::framing::{decode_frame, encode_frame, FrameError, MAX_MESSAGE_SIZE};
use fridex::message::{read_message, read_message_at_end, write_message, MessageError};

#[test]
fn encodes_header_then_body() {
    let out = encode_frame(b"{\"a\":1}");
    assert_eq!(out, b"Content-Length: 7\r\n\r\n{\"a\":1}".to_vec());
    assert_eq!(encode_frame(b""), b"Content-Length: 0\r\n\r\n".to_vec());
}

#[test]
fn round_trip_keeps_body_and_rest() {
    let body = b"{\"jsonrpc\":\"2.0\",\"id\":12,\"result\":null}".to_vec();
    let mut buf = encode_frame(&body);
    let frame_len = buf.len();
    buf.extend_from_slice(b"Content-Length: 2\r\n\r\n{}");
    let frame = decode_frame(&buf, Some(MAX_MESSAGE_SIZE)).unwrap().unwrap();
    assert_eq!(frame.body, body);
    assert_eq!(frame.consumed, frame_len);
    let second = decode_frame(&buf[frame.consumed..], None).unwrap().unwrap();
    assert_eq!(second.body, b"{}".to_vec());
}

#[test]
fn round_trip_of_json_value() {
    let value: serde_json::Value = serde_json::from_str("{\"k\":[1,\"two\",null,true],\"n\":{\"x\":-3}}").unwrap();
    let body = serde_json::to_vec(&value).unwrap();
    let framed = encode_frame(&body);
    let frame = decode_frame(&framed, Some(MAX_MESSAGE_SIZE)).unwrap().unwrap();
    let back: serde_json::Value = serde_json::from_slice(&frame.body).unwrap();
    assert_eq!(back, value);
}

#[test]
fn partial_input_needs_more() {
    let framed = encode_frame(b"hello");
    for cut in 0..framed.len() {
        assert!(decode_frame(&framed[..cut], None).unwrap().is_none());
    }
}

#[test]
fn other_headers_are_ignored() {
    let buf = b"Content-Type: x\r\nContent-Length: 2\n\r\nok".to_vec();
    let frame = decode_frame(&buf, None).unwrap().unwrap();
    assert_eq!(frame.body, b"ok".to_vec());
    assert_eq!(frame.consumed, buf.len());
}

#[test]
fn missing_length_is_an_error() {
    let buf = b"Content-Type: x\r\n\r\n{}".to_vec();
    assert_eq!(decode_frame(&buf, None).err(), Some(FrameError::MissingContentLength));
}

#[test]
fn non_numeric_length_is_an_error() {
    let buf = b"Content-Length: abc\r\n\r\n{}".to_vec();
    assert_eq!(decode_frame(&buf, None).err(), Some(FrameError::InvalidContentLength));
    let empty = b"Content-Length: \r\n\r\n".to_vec();
    assert_eq!(decode_frame(&empty, None).err(), Some(FrameError::InvalidContentLength));
}

#[test]
fn oversized_message_is_rejected() {
    let buf = b"Content-Length: 8388609\r\n\r\n".to_vec();
    assert_eq!(decode_frame(&buf, Some(MAX_MESSAGE_SIZE)).err(), Some(FrameError::MessageTooLarge));
    assert!(decode_frame(&buf, None).unwrap().is_none());
    let at_cap = b"Content-Length: 8388608\r\n\r\n".to_vec();
    assert!(decode_frame(&at_cap, Some(MAX_MESSAGE_SIZE)).unwrap().is_none());
}

#[test]
fn error_messages() {
    assert_eq!(FrameError::StreamClosed.message(), "stream closed");
    assert_eq!(FrameError::MessageTooLarge.message(), "message too large");
}

#[test]
fn message_round_trip() {
    let value: serde_json::Value =
        serde_json::from_str("{\"jsonrpc\":\"2.0\",\"id\":\"a-1\",\"params\":{\"list\":[1.5,\"\\u00e9\",false]}}").unwrap();
    let mut bytes = write_message(&value).unwrap();
    assert!(bytes.starts_with(b"Content-Length: "));
    let used = bytes.len();
    bytes.extend_from_slice(b"Content-Len");
    let (back, consumed) = read_message(&bytes, Some(MAX_MESSAGE_SIZE)).unwrap().unwrap();
    assert_eq!(back, value);
    assert_eq!(consumed, used);
    assert!(read_message(&bytes[used..], None).unwrap().is_none());
}

#[test]
fn message_with_bad_body_is_a_json_error() {
    let framed = encode_frame(b"{not json");
    assert!(matches!(read_message(&framed, None), Err(MessageError::Json(_))));
    assert_eq!(read_message(b"\r\n", None).err(), Some(MessageError::Frame(FrameError::MissingContentLength)));
}

#[test]
fn end_of_stream_inside_a_frame_is_stream_closed() {
    let value: serde_json::Value = serde_json::from_str("{\"id\":3}").unwrap();
    let framed = write_message(&value).unwrap();
    for cut in 0..framed.len() {
        assert_eq!(
            read_message_at_end(&framed[..cut], Some(MAX_MESSAGE_SIZE)).err(),
            Some(MessageError::Frame(FrameError::StreamClosed))
        );
    }
    let (back, used) = read_message_at_end(&framed, Some(MAX_MESSAGE_SIZE)).unwrap();
    assert_eq!(back, value);
    assert_eq!(used, framed.len());
}
