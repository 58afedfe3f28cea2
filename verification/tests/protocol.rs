//! Frames and JSON-RPC envelopes.
use fleet_commander::error_codes;
use fleet_commander::framing::{self, ByteReader, FrameError};
use fleet_commander::methods;
use fleet_commander::protocol::{
    Capabilities, DecodeError, Incoming, InitializeResult, Notification, Request, Response,
    RpcError,
};
use serde_json::Value;

fn object(fields: Vec<(&str, Value)>) -> Value {
    let mut map = serde_json::Map::new();
    for (k, v) in fields {
        map.insert(k.to_string(), v);
    }
    Value::Object(map)
}

fn bytes(v: &Value) -> Vec<u8> {
    serde_json::to_vec(v).unwrap()
}

fn response_value(r: &Response) -> Value {
    let mut fields = vec![("jsonrpc", Value::from(r.jsonrpc.as_str())), ("id", Value::from(r.id))];
    if let Some(result) = &r.result {
        fields.push(("result", result.clone()));
    }
    if let Some(e) = &r.error {
        fields.push((
            "error",
            object(vec![("code", Value::from(e.code)), ("message", Value::from(e.message.as_str()))]),
        ));
    }
    object(fields)
}

fn notification_value(n: &Notification) -> Value {
    let mut fields = vec![
        ("jsonrpc", Value::from(n.jsonrpc.as_str())),
        ("method", Value::from(n.method.as_str())),
    ];
    if let Some(params) = &n.params {
        fields.push(("params", params.clone()));
    }
    object(fields)
}

#[test]
fn write_frame_emits_content_length_and_body() {
    let mut buf = Vec::new();
    framing::write_frame(&mut buf, b"{\"hi\":1}");
    assert_eq!(buf, b"Content-Length: 8\r\n\r\n{\"hi\":1}");
}

#[test]
fn read_frame_round_trips_a_written_frame() {
    let mut buf = Vec::new();
    framing::write_frame(&mut buf, b"hello world");
    let mut cursor = ByteReader::new(buf);
    let body = framing::read_frame(&mut cursor).unwrap().unwrap();
    assert_eq!(body, b"hello world");
    // A second read at the boundary is a clean EOF.
    assert!(framing::read_frame(&mut cursor).unwrap().is_none());
}

#[test]
fn read_frame_handles_back_to_back_frames() {
    let mut buf = Vec::new();
    framing::write_frame(&mut buf, b"one");
    framing::write_frame(&mut buf, b"two");
    let mut cursor = ByteReader::new(buf);
    assert_eq!(framing::read_frame(&mut cursor).unwrap().unwrap(), b"one");
    assert_eq!(framing::read_frame(&mut cursor).unwrap().unwrap(), b"two");
    assert!(framing::read_frame(&mut cursor).unwrap().is_none());
}

#[test]
fn read_frame_ignores_unknown_headers_and_is_case_insensitive() {
    let raw = b"X-Trace: abc\r\ncontent-length: 3\r\n\r\nabc";
    let mut cursor = ByteReader::new(raw.to_vec());
    assert_eq!(framing::read_frame(&mut cursor).unwrap().unwrap(), b"abc");
}

#[test]
fn read_frame_clean_eof_on_empty_input() {
    let mut cursor = ByteReader::new(Vec::new());
    assert!(framing::read_frame(&mut cursor).unwrap().is_none());
}

#[test]
fn read_frame_errors_on_missing_content_length() {
    let raw = b"X-Trace: abc\r\n\r\nbody";
    let mut cursor = ByteReader::new(raw.to_vec());
    assert!(framing::read_frame(&mut cursor).is_err());
}

#[test]
fn read_frame_errors_on_truncated_body() {
    let raw = b"Content-Length: 10\r\n\r\nshort";
    let mut cursor = ByteReader::new(raw.to_vec());
    assert!(framing::read_frame(&mut cursor).is_err());
}

fn error_of(raw: &[u8]) -> FrameError {
    framing::read_frame(&mut ByteReader::new(raw.to_vec())).unwrap_err()
}

#[test]
fn each_fault_of_a_frame_has_its_error() {
    assert_eq!(error_of(b"X-\xff: a\r\n\r\n"), FrameError::NotText);
    assert_eq!(error_of(b"Content-Length: 3\r\n"), FrameError::HeaderEof);
    assert_eq!(error_of(b"no colon here\r\n\r\n"), FrameError::MalformedHeader);
    assert_eq!(error_of(b"Content-Length: three\r\n\r\n"), FrameError::InvalidLength);
    assert_eq!(error_of(b"Content-Length: -1\r\n\r\n"), FrameError::InvalidLength);
    assert_eq!(error_of(b"X-Trace: abc\r\n\r\nbody"), FrameError::MissingLength);
    assert_eq!(error_of(b"Content-Length: 67108865\r\n\r\n"), FrameError::BodyTooLarge);
    assert_eq!(error_of(b"Content-Length: 10\r\n\r\nshort"), FrameError::BodyEof);
    let mut long = b"X-Trace: ".to_vec();
    long.extend(vec![b'a'; 64 * 1024]);
    long.extend(b"\r\nContent-Length: 0\r\n\r\n");
    assert_eq!(error_of(&long), FrameError::HeaderTooLarge);
}

#[test]
fn the_last_announced_length_counts() {
    let raw = b"Content-Length: 9\r\nContent-Length: 2\r\n\r\nabc";
    let mut cursor = ByteReader::new(raw.to_vec());
    assert_eq!(framing::read_frame(&mut cursor).unwrap().unwrap(), b"ab");
}

#[test]
fn reading_resumes_behind_what_was_at_fault() {
    let mut cursor = ByteReader::new(b"no colon here\r\nContent-Length: 2\r\n\r\nok".to_vec());
    assert_eq!(framing::read_frame(&mut cursor).unwrap_err(), FrameError::MalformedHeader);
    assert_eq!(framing::read_frame(&mut cursor).unwrap().unwrap(), b"ok");

    let mut cursor = ByteReader::new(b"X-Trace: a\r\n\r\nContent-Length: 1\r\n\r\n!".to_vec());
    assert_eq!(framing::read_frame(&mut cursor).unwrap_err(), FrameError::MissingLength);
    assert_eq!(framing::read_frame(&mut cursor).unwrap().unwrap(), b"!");

    let mut cursor = ByteReader::new(b"Content-Length: 10\r\n\r\nshort".to_vec());
    assert_eq!(framing::read_frame(&mut cursor).unwrap_err(), FrameError::BodyEof);
    assert!(framing::read_frame(&mut cursor).unwrap().is_none());
}

#[test]
fn a_header_line_over_the_limit_is_not_read_on() {
    // However long the line is, one byte more than the limit is taken.
    for len in [8193, 8194, 64 * 1024] {
        let mut cursor = ByteReader::new(vec![0xff; len]);
        assert!(!cursor.wants_more());
        assert_eq!(framing::read_frame(&mut cursor).unwrap_err(), FrameError::HeaderTooLarge);
        let mut left = 0;
        while framing::read_frame(&mut cursor).unwrap_or(Some(vec![])).is_some() {
            left += 1;
        }
        assert_eq!(left, (len - 8193).div_ceil(8193));
    }
    let mut raw = vec![b'a'; 8193];
    raw.extend(b"Content-Length: 2\r\n\r\nok");
    let mut cursor = ByteReader::new(raw);
    assert_eq!(framing::read_frame(&mut cursor).unwrap_err(), FrameError::HeaderTooLarge);
    assert_eq!(framing::read_frame(&mut cursor).unwrap().unwrap(), b"ok");
}

#[test]
fn the_largest_header_block_is_read() {
    let mut raw = b"X-Trace: ".to_vec();
    raw.extend(vec![b'a'; framing::MAX_HEADER_BYTES - 9 - 2 - 19 - 2]);
    raw.extend(b"\r\nContent-Length: 2\r\n\r\n");
    assert_eq!(raw.len(), framing::MAX_HEADER_BYTES);
    raw.extend(b"ok");
    let mut cursor = ByteReader::new(raw.clone());
    assert_eq!(framing::read_frame(&mut cursor).unwrap().unwrap(), b"ok");
    raw.insert(9, b'a');
    let mut cursor = ByteReader::new(raw);
    assert_eq!(framing::read_frame(&mut cursor).unwrap_err(), FrameError::HeaderTooLarge);
}

#[test]
fn what_is_not_complete_wants_more() {
    let whole = b"Content-Length: 2\r\n\r\nok";
    for n in 0..whole.len() {
        assert!(ByteReader::new(whole[..n].to_vec()).wants_more(), "{n}");
    }
    let mut cursor = ByteReader::new(whole.to_vec());
    assert!(!cursor.wants_more());
    cursor.feed(b"more");
    assert!(!cursor.wants_more());
    assert_eq!(framing::read_frame(&mut cursor).unwrap().unwrap(), b"ok");
    assert!(cursor.wants_more());
    assert!(!ByteReader::new(b"no colon here\r\n".to_vec()).wants_more());
    assert!(ByteReader::new(b"no colon yet".to_vec()).wants_more());
}

#[test]
fn bytes_that_arrive_later_are_read() {
    let mut cursor = ByteReader::new(b"Content-Length: 2\r\n".to_vec());
    cursor.feed(b"\r\nok");
    assert_eq!(framing::read_frame(&mut cursor).unwrap().unwrap(), b"ok");
}

#[test]
fn an_empty_body_is_a_frame() {
    let mut buf = Vec::new();
    framing::write_frame(&mut buf, b"");
    assert_eq!(buf, b"Content-Length: 0\r\n\r\n");
    let mut cursor = ByteReader::new(buf);
    assert_eq!(framing::read_frame(&mut cursor).unwrap(), Some(Vec::new()));
}

#[test]
fn response_ok_and_err_are_mutually_exclusive() {
    let ok = Response::ok(1, object(vec![("branch", Value::from("main"))]));
    assert!(ok.result.is_some() && ok.error.is_none());
    let err = Response::err(1, RpcError::new(error_codes::NOT_FOUND, "nope".into()));
    assert!(err.result.is_none() && err.error.is_some());
}

#[test]
fn incoming_classifies_response_vs_notification() {
    let resp = Response::ok(7, object(vec![("branch", Value::Null)]));
    let resp_bytes = bytes(&response_value(&resp));
    match Incoming::from_slice(&resp_bytes).unwrap() {
        Incoming::Response(r) => assert_eq!(r.id, 7),
        other => panic!("expected response, got {other:?}"),
    }

    let note = Notification::new(
        methods::FS_DID_CHANGE.into(),
        object(vec![("paths", Value::Array(Vec::new()))]),
    );
    let note_bytes = bytes(&notification_value(&note));
    match Incoming::from_slice(&note_bytes).unwrap() {
        Incoming::Notification(n) => assert_eq!(n.method, methods::FS_DID_CHANGE),
        other => panic!("expected notification, got {other:?}"),
    }
}

#[test]
fn a_request_carries_the_version_and_its_params() {
    let params = object(vec![("path", Value::from("src"))]);
    let req = Request::new(7, methods::FS_LIST.into(), params.clone());
    assert_eq!(req.jsonrpc, "2.0");
    assert_eq!(req.id, 7);
    assert_eq!(req.method, "fs.list");
    assert_eq!(req.params, Some(params));
}

#[test]
fn a_response_reads_back_as_it_was_built() {
    let ok = Response::ok(3, Value::from("done"));
    assert_eq!(Response::from_value(&response_value(&ok)).unwrap(), ok);
    let err = Response::err(4, RpcError::new(error_codes::IO_ERROR, "disk".into()));
    assert_eq!(Response::from_value(&response_value(&err)).unwrap(), err);
}

#[test]
fn a_notification_reads_back_as_it_was_built() {
    let note = Notification::new("a.b".into(), object(vec![("n", Value::from(-3))]));
    assert_eq!(Notification::from_value(&notification_value(&note)).unwrap(), note);
}

#[test]
fn null_members_count_as_absent() {
    let v = object(vec![
        ("jsonrpc", Value::from("2.0")),
        ("id", Value::Null),
        ("method", Value::from("m")),
        ("params", Value::Null),
    ]);
    match Incoming::from_value(&v).unwrap() {
        Incoming::Notification(n) => assert_eq!(n.params, None),
        other => panic!("expected notification, got {other:?}"),
    }
}

fn fault_of(v: &Value) -> &'static str {
    match Incoming::from_value(v).unwrap_err() {
        DecodeError::Field(name) => name,
        other => panic!("expected a field, got {other:?}"),
    }
}

#[test]
fn a_faulty_message_names_its_field() {
    assert!(matches!(Incoming::from_slice(b"{"), Err(DecodeError::Json(_))));
    assert_eq!(fault_of(&object(vec![("id", Value::from(1))])), "jsonrpc");
    let version = ("jsonrpc", Value::from("2.0"));
    assert_eq!(fault_of(&object(vec![version.clone(), ("id", Value::from(-1))])), "id");
    assert_eq!(fault_of(&object(vec![version.clone()])), "method");
    let id = ("id", Value::from(1));
    assert_eq!(
        fault_of(&object(vec![version.clone(), id.clone(), ("error", object(vec![]))])),
        "code"
    );
    let code = object(vec![("code", Value::from(3))]);
    assert_eq!(fault_of(&object(vec![version, id, ("error", code)])), "message");
}

#[test]
fn an_error_object_keeps_its_data() {
    let v = object(vec![
        ("code", Value::from(error_codes::PARSE_ERROR)),
        ("message", Value::from("bad")),
        ("data", Value::from(true)),
    ]);
    let e = RpcError::from_value(&v).unwrap();
    assert_eq!(e.code, -32700);
    assert_eq!(e.message, "bad");
    assert_eq!(e.data, Some(Value::from(true)));
}

fn value(text: &str) -> Value {
    serde_json::from_str(text).unwrap()
}

#[test]
fn capabilities_watch_defaults_to_false_when_absent() {
    // An older daemon that predates the `watch` field must deserialize
    // as non-watching rather than failing.
    let caps = Capabilities::from_value(&value(r#"{"fs":true,"git":true}"#)).unwrap();
    assert!(caps.fs && caps.git && !caps.watch);
}

#[test]
fn capabilities_session_defaults_to_false_when_absent() {
    // A daemon predating the `session` field must deserialize as
    // non-session-capable rather than failing.
    let caps = Capabilities::from_value(&value(r#"{"fs":true,"git":true,"acp":true}"#)).unwrap();
    assert!(caps.acp && !caps.session);
}

fn field_at_fault<T>(r: Result<T, DecodeError>) -> &'static str {
    match r {
        Err(DecodeError::Field(field)) => field,
        _ => panic!("no field at fault"),
    }
}

#[test]
fn a_handshake_is_read() {
    let text = r#"{"protocol_version":1,"server_info":{"name":"d","version":"2"},
        "capabilities":{"fs":true,"git":false,"search":true,"session":true}}"#;
    let result = InitializeResult::from_value(&value(text)).unwrap();
    assert_eq!(result.protocol_version, 1);
    assert_eq!((result.server_info.name.as_str(), result.server_info.version.as_str()), ("d", "2"));
    let caps = result.capabilities;
    assert!(caps.fs && !caps.git && !caps.watch && caps.search && !caps.acp && caps.session);

    for (text, field) in [
        (r#"[]"#, "protocol_version"),
        (r#"{"protocol_version":4294967296}"#, "protocol_version"),
        (r#"{"protocol_version":1}"#, "server_info"),
        (r#"{"protocol_version":1,"server_info":{"name":"d"}}"#, "version"),
        (r#"{"protocol_version":1,"server_info":{"version":"2"}}"#, "name"),
        (r#"{"protocol_version":1,"server_info":{"name":"d","version":"2"}}"#, "capabilities"),
    ] {
        assert_eq!(field_at_fault(InitializeResult::from_value(&value(text))), field);
    }
    for (text, field) in [
        (r#"{"git":true}"#, "fs"),
        (r#"{"fs":true,"git":1}"#, "git"),
        (r#"{"fs":true,"git":true,"watch":null}"#, "watch"),
        (r#"{"fs":true,"git":true,"search":"yes"}"#, "search"),
        (r#"{"fs":true,"git":true,"acp":0}"#, "acp"),
        (r#"{"fs":true,"git":true,"session":[]}"#, "session"),
    ] {
        assert_eq!(field_at_fault(Capabilities::from_value(&value(text))), field);
    }
}
