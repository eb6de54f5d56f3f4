use fridex::message::{read_message, write_message};
use fridex::acp::{build_session_id, exchange_step, request_id_text, run_exchange, AcpError, AcpHost, ExchangeStep, RequestId};

#[test]
fn session_ids() {
    assert_eq!(build_session_id(1700000000123, 1), "acp-1700000000123-1");
    assert_eq!(build_session_id(0, 42), "acp-0-42");
}

#[test]
fn host_registers_and_stops_sessions() {
    let mut host: AcpHost<&str> = AcpHost::new();
    let a = host.start_session(5, "a").unwrap();
    let b = host.start_session(5, "b").unwrap();
    assert_eq!(a, "acp-5-1");
    assert_eq!(b, "acp-5-2");
    assert_eq!(host.stop_session("unknown"), None);
    assert_eq!(host.stop_session(&a), Some("a"));
    assert!(!host.has_session(&a));
    assert!(host.has_session(&b));
}

#[test]
fn send_to_missing_session_fails() {
    let mut host: AcpHost<u8> = AcpHost::new();
    assert_eq!(host.take_session("acp-1-1").err(), Some(AcpError::SessionNotFound));
    let id = host.start_session(1, 3).unwrap();
    let s = host.take_session(&id).unwrap();
    assert!(!host.has_session(&id));
    host.restore_session(id.clone(), s);
    assert!(host.has_session(&id));
}

#[test]
fn ids_compare_as_text() {
    assert_eq!(request_id_text(&RequestId::Number(-12)), "-12");
    assert_eq!(request_id_text(&RequestId::Number(i64::MIN)), "-9223372036854775808");
    let req = Some(RequestId::Number(7));
    assert_eq!(exchange_step(&req, &Some(RequestId::Text("7".to_string())), false), ExchangeStep::Finish);
    assert_eq!(exchange_step(&req, &Some(RequestId::Number(8)), false), ExchangeStep::Discard);
    assert_eq!(exchange_step(&None, &None, true), ExchangeStep::Finish);
}

#[test]
fn tick_then_pong() {
    let req = Some(RequestId::Number(1));
    let frames = vec![None, Some(RequestId::Number(1))];
    let (reply, forwarded) = run_exchange(&req, &frames, false);
    assert_eq!(reply, Some(1));
    assert!(forwarded.is_empty());
    let (reply, forwarded) = run_exchange(&req, &frames, true);
    assert_eq!(reply, Some(1));
    assert_eq!(forwarded, vec![0]);
}

#[test]
fn exchange_without_reply_reads_on() {
    let req = Some(RequestId::Text("a".to_string()));
    let frames = vec![None, Some(RequestId::Text("b".to_string()))];
    assert_eq!(run_exchange(&req, &frames, true), (None, vec![0, 1]));
}

fn frame_id(frame: &serde_json::Value) -> Option<RequestId> {
    match frame.get("id") {
        Some(serde_json::Value::String(text)) => Some(RequestId::Text(text.clone())),
        Some(value) => value.as_i64().map(RequestId::Number),
        None => None,
    }
}

fn exchange_over_bytes(stream: &[u8], streaming: bool) -> (serde_json::Value, Vec<serde_json::Value>) {
    let request: serde_json::Value = serde_json::from_str("{\"id\":1,\"method\":\"ping\"}").unwrap();
    let wanted = frame_id(&request);
    let mut events = Vec::new();
    let mut rest = stream;
    loop {
        let (frame, used) = read_message(rest, None).unwrap().unwrap();
        rest = &rest[used..];
        match exchange_step(&wanted, &frame_id(&frame), streaming) {
            ExchangeStep::Finish => return (frame, events),
            ExchangeStep::Forward => events.push(frame),
            ExchangeStep::Discard => {},
        }
    }
}

#[test]
fn ping_session_replies_pong_after_tick() {
    let tick: serde_json::Value = serde_json::from_str("{\"method\":\"tick\"}").unwrap();
    let pong: serde_json::Value = serde_json::from_str("{\"id\":1,\"result\":\"pong\"}").unwrap();
    let mut stream = write_message(&tick).unwrap();
    stream.extend(write_message(&pong).unwrap());
    let (reply, events) = exchange_over_bytes(&stream, false);
    assert_eq!(reply, pong);
    assert!(events.is_empty());
    let (reply, events) = exchange_over_bytes(&stream, true);
    assert_eq!(reply, pong);
    assert_eq!(events, vec![tick]);
}
