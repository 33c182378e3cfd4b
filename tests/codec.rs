use ag_ui_wasm::json::{parse_json, write_json};
use ag_ui_wasm::{
    decode_one, AgUiError, BaseEvent, CustomEvent, DecodeError, ErrorEvent, EventData, EventType,
    JsonValue, Message, MessagesSnapshotEvent, PatchOp, PatchOperation, RawEvent, Role,
    RunErrorEvent, RunStartedEvent, SseEncoder, StateDeltaEvent, StateSnapshotEvent,
    StepStartedEvent, TextMessageContentEvent, TextMessageStartEvent, Timestamp, ToolCall,
    ToolCallEndEvent, ToolCallResultEvent, ToolResult,
};

fn text(s: &str) -> String {
    s.to_string()
}

fn event(data: EventData) -> BaseEvent {
    BaseEvent { timestamp: None, raw_event: None, data }
}

fn frame(e: &BaseEvent) -> String {
    SseEncoder::encode_event_string(e).expect("event encodes")
}

fn payload(frame: &str) -> &str {
    assert!(frame.starts_with("data: "));
    assert!(frame.ends_with("\n\n"));
    &frame[6..frame.len() - 2]
}

/// Encodes, decodes the payload, and checks that encoding the result gives the same frame.
fn assert_round_trip(e: &BaseEvent) {
    let f = frame(e);
    let back = decode_one(payload(&f)).expect("frame decodes");
    assert_eq!(back.event_type(), e.event_type());
    assert_eq!(frame(&back), f);
}

fn obj(members: Vec<(&str, JsonValue)>) -> JsonValue {
    JsonValue::Object(members.into_iter().map(|(k, v)| (k.to_string(), v)).collect())
}

fn num(s: &str) -> JsonValue {
    JsonValue::Number(s.to_string())
}

fn jstr(s: &str) -> JsonValue {
    JsonValue::Str(s.to_string())
}

#[test]
fn text_message_content_frame_is_exact() {
    let e = event(EventData::TextMessageContent(TextMessageContentEvent {
        message_id: text("m1"),
        delta: text("Hi"),
    }));
    assert_eq!(
        frame(&e),
        "data: {\"type\":\"TEXT_MESSAGE_CONTENT\",\"message_id\":\"m1\",\"delta\":\"Hi\"}\n\n"
    );
}

#[test]
fn timestamp_appears_only_when_set() {
    let mut e = event(EventData::TextMessageContent(TextMessageContentEvent {
        message_id: text("m1"),
        delta: text("Hi"),
    }));
    assert!(!frame(&e).contains("timestamp"));
    e.timestamp = Timestamp::parse("2024-05-01T12:30:00Z");
    assert!(e.timestamp.is_some());
    assert_eq!(
        frame(&e),
        "data: {\"type\":\"TEXT_MESSAGE_CONTENT\",\"timestamp\":\"2024-05-01T12:30:00Z\",\"message_id\":\"m1\",\"delta\":\"Hi\"}\n\n"
    );
    assert_round_trip(&e);
}

#[test]
fn absent_optional_fields_are_omitted_not_null() {
    let e = event(EventData::TextMessageStart(TextMessageStartEvent {
        message_id: text("m1"),
        role: None,
    }));
    let f = frame(&e);
    assert!(!f.contains("null"));
    assert!(!f.contains("role"));
    assert!(!f.contains("raw_event"));
}

#[test]
fn round_trip_lifecycle_events() {
    assert_round_trip(&event(EventData::RunStarted(RunStartedEvent {
        thread_id: text("t"),
        run_id: text("r"),
    })));
    assert_round_trip(&event(EventData::RunError(RunErrorEvent {
        thread_id: text("t"),
        run_id: text("r"),
        error: text("boom"),
        code: Some(text("E42")),
    })));
    assert_round_trip(&event(EventData::StepStarted(StepStartedEvent {
        thread_id: text("t"),
        run_id: text("r"),
        step_id: text("s1"),
        step_type: None,
    })));
}

#[test]
fn round_trip_with_role_raw_event_and_special_characters() {
    let mut e = event(EventData::TextMessageStart(TextMessageStartEvent {
        message_id: text("m\"1\\\n\u{e9}\u{1F600}"),
        role: Some(Role::Assistant),
    }));
    e.raw_event = Some(obj(vec![("source", jstr("upstream")), ("n", num("7"))]));
    let f = frame(&e);
    assert!(f.contains("\"role\":\"assistant\""));
    assert_eq!(f.matches('\n').count(), 2);
    assert_round_trip(&e);
}

#[test]
fn round_trip_tool_events() {
    assert_round_trip(&event(EventData::ToolCallEnd(ToolCallEndEvent {
        tool_call_id: text("c1"),
        tool_call: Some(ToolCall {
            id: text("c1"),
            name: text("search"),
            arguments: Some(obj(vec![("query", jstr("rust"))])),
        }),
    })));
    assert_round_trip(&event(EventData::ToolCallResult(ToolCallResultEvent {
        tool_result: ToolResult {
            tool_call_id: text("c1"),
            result: JsonValue::Array(vec![num("1"), JsonValue::Bool(true), JsonValue::Null]),
            error: None,
        },
    })));
}

#[test]
fn round_trip_messages_snapshot() {
    let m = Message {
        id: text("msg_1"),
        role: Role::User,
        content: text("hello"),
        name: Some(text("ann")),
        tool_call_id: None,
        tool_calls: Some(vec![ToolCall { id: text("c"), name: text("f"), arguments: None }]),
        function_call: None,
        metadata: Some(vec![(text("k"), jstr("v"))]),
        created_at: Timestamp::parse("2023-01-15T10:00:00.5+02:00"),
    };
    let e = event(EventData::MessagesSnapshot(MessagesSnapshotEvent { messages: vec![m] }));
    let f = frame(&e);
    assert!(f.contains("\"role\":\"user\""));
    assert!(f.contains("\"created_at\":\"2023-01-15T10:00:00.5+02:00\""));
    assert_round_trip(&e);
}

#[test]
fn round_trip_state_snapshot_and_error() {
    assert_round_trip(&event(EventData::StateSnapshot(StateSnapshotEvent {
        state: vec![(text("count"), num("3")), (text("nested"), obj(vec![("a", JsonValue::Null)]))],
    })));
    assert_round_trip(&event(EventData::Error(ErrorEvent {
        error: text("bad"),
        code: None,
        details: Some(JsonValue::Null),
    })));
}

#[test]
fn state_delta_six_operations_round_trip_in_order() {
    let op = |op: PatchOp, path: &str, from: Option<&str>, value: Option<JsonValue>| PatchOperation {
        op,
        path: text(path),
        from: from.map(text),
        value,
    };
    let e = event(EventData::StateDelta(StateDeltaEvent {
        delta: vec![
            op(PatchOp::Add, "/a", None, Some(num("1"))),
            op(PatchOp::Remove, "/b", None, None),
            op(PatchOp::Replace, "/c", None, Some(jstr("x"))),
            op(PatchOp::Move, "/d", Some("/a"), None),
            op(PatchOp::Copy, "/e", Some("/d"), None),
            op(PatchOp::Test, "/e", None, Some(num("1"))),
        ],
    }));
    let f = frame(&e);
    let back = decode_one(payload(&f)).expect("decodes");
    match &back.data {
        EventData::StateDelta(d) => {
            let ops: Vec<PatchOp> = d.delta.iter().map(|o| o.op).collect();
            assert_eq!(
                ops,
                vec![PatchOp::Add, PatchOp::Remove, PatchOp::Replace, PatchOp::Move, PatchOp::Copy, PatchOp::Test]
            );
            assert_eq!(d.delta[3].from.as_deref(), Some("/a"));
            assert_eq!(d.delta[3].path, "/d");
            assert_eq!(d.delta[4].from.as_deref(), Some("/d"));
            assert!(d.delta[1].value.is_none());
            assert!(matches!(&d.delta[2].value, Some(JsonValue::Str(s)) if s == "x"));
        }
        other => panic!("unexpected payload {:?}", other),
    }
    assert_eq!(frame(&back), f);
}

#[test]
fn custom_event_data_is_flattened() {
    let e = event(EventData::Custom(CustomEvent {
        event_type: text("user_feedback"),
        data: vec![(text("rating"), num("5")), (text("comment"), jstr("great"))],
    }));
    assert_eq!(
        frame(&e),
        "data: {\"type\":\"CUSTOM\",\"event_type\":\"user_feedback\",\"rating\":5,\"comment\":\"great\"}\n\n"
    );
    assert_round_trip(&e);
}

#[test]
fn raw_event_round_trip() {
    assert_round_trip(&event(EventData::Raw(RawEvent {
        event: obj(vec![("type", jstr("user_action")), ("ts", num("1676480210000"))]),
    })));
}

#[test]
fn decoding_ignores_member_order_whitespace_and_unknown_members() {
    let e = decode_one(" { \"run_id\" : \"r\",\n \"extra\": [1, 2], \"thread_id\":\"t\", \"type\":\"RUN_STARTED\" } ")
        .expect("decodes");
    match &e.data {
        EventData::RunStarted(p) => {
            assert_eq!(p.thread_id, "t");
            assert_eq!(p.run_id, "r");
        }
        other => panic!("unexpected payload {:?}", other),
    }
    assert_eq!(frame(&e), "data: {\"type\":\"RUN_STARTED\",\"thread_id\":\"t\",\"run_id\":\"r\"}\n\n");
}

#[test]
fn unknown_kind_is_rejected() {
    match decode_one("{\"type\":\"NOT_A_KIND\",\"thread_id\":\"t\",\"run_id\":\"r\"}") {
        Err(AgUiError::JsonError(DecodeError::UnknownEventType(name))) => assert_eq!(name, "NOT_A_KIND"),
        other => panic!("unexpected outcome {:?}", other),
    }
}

#[test]
fn decode_errors_name_their_cause() {
    assert!(matches!(decode_one("{\"type\":"), Err(AgUiError::JsonError(DecodeError::MalformedJson))));
    assert!(matches!(decode_one("[1]"), Err(AgUiError::JsonError(DecodeError::NotAnObject))));
    match decode_one("{\"thread_id\":\"t\"}") {
        Err(AgUiError::JsonError(DecodeError::MissingField(k))) => assert_eq!(k, "type"),
        other => panic!("unexpected outcome {:?}", other),
    }
    match decode_one("{\"type\":7}") {
        Err(AgUiError::JsonError(DecodeError::InvalidField(k))) => assert_eq!(k, "type"),
        other => panic!("unexpected outcome {:?}", other),
    }
    match decode_one("{\"type\":\"RUN_STARTED\",\"thread_id\":\"t\"}") {
        Err(AgUiError::JsonError(DecodeError::MissingField(k))) => assert_eq!(k, "run_id"),
        other => panic!("unexpected outcome {:?}", other),
    }
    match decode_one("{\"type\":\"TEXT_MESSAGE_START\",\"message_id\":\"m\",\"role\":\"wizard\"}") {
        Err(AgUiError::JsonError(DecodeError::InvalidField(k))) => assert_eq!(k, "role"),
        other => panic!("unexpected outcome {:?}", other),
    }
    match decode_one("{\"type\":\"RUN_STARTED\",\"thread_id\":\"t\",\"run_id\":\"r\",\"timestamp\":\"yesterday\"}") {
        Err(AgUiError::JsonError(DecodeError::InvalidField(k))) => assert_eq!(k, "timestamp"),
        other => panic!("unexpected outcome {:?}", other),
    }
    match decode_one("{\"type\":\"STATE_DELTA\",\"delta\":[{\"op\":\"jump\",\"path\":\"/a\"}]}") {
        Err(AgUiError::JsonError(DecodeError::InvalidField(k))) => assert_eq!(k, "op"),
        other => panic!("unexpected outcome {:?}", other),
    }
}

#[test]
fn null_optional_text_counts_as_absent() {
    let e = decode_one("{\"type\":\"TEXT_MESSAGE_START\",\"message_id\":\"m\",\"role\":null}").expect("decodes");
    match &e.data {
        EventData::TextMessageStart(p) => assert!(p.role.is_none()),
        other => panic!("unexpected payload {:?}", other),
    }
}

#[test]
fn unrepresentable_events_fail_to_encode() {
    let bad_number = event(EventData::Raw(RawEvent { event: num("NaN") }));
    assert!(matches!(SseEncoder::encode_event_string(&bad_number), Err(AgUiError::EncodingError(_))));
    let too_big = event(EventData::Raw(RawEvent { event: num("1e400") }));
    assert!(matches!(SseEncoder::encode_event_string(&too_big), Err(AgUiError::EncodingError(_))));
    let reserved = event(EventData::Custom(CustomEvent {
        event_type: text("x"),
        data: vec![(text("type"), jstr("y"))],
    }));
    assert!(matches!(SseEncoder::encode_event_string(&reserved), Err(AgUiError::EncodingError(_))));
    let encoder = SseEncoder::new();
    assert!(matches!(encoder.encode_event(&bad_number), Err(AgUiError::EncodingError(_))));
}

#[test]
fn batch_keeps_order() {
    let e1 = event(EventData::RunStarted(RunStartedEvent { thread_id: text("t"), run_id: text("r") }));
    let e2 = event(EventData::TextMessageContent(TextMessageContentEvent {
        message_id: text("m"),
        delta: text("d"),
    }));
    let e3 = event(EventData::Error(ErrorEvent { error: text("e"), code: None, details: None }));
    let batch = SseEncoder::encode_events_string(&[e1, e2, e3]).expect("encodes");
    let kinds: Vec<EventType> = batch
        .split("\n\n")
        .filter(|f| !f.is_empty())
        .map(|f| decode_one(&f[6..]).expect("decodes").event_type())
        .collect();
    assert_eq!(kinds, vec![EventType::RunStarted, EventType::TextMessageContent, EventType::Error]);
    assert_eq!(SseEncoder::encode_events_string(&[]).expect("encodes"), "");
}

#[test]
fn comment_ping_and_message_frames() {
    let encoder = SseEncoder::new_internal().expect("encoder");
    assert_eq!(encoder.encode_comment("keep").unwrap(), b": keep\n".to_vec());
    assert_eq!(encoder.encode_ping().unwrap(), b": ping\n\n".to_vec());
    assert_eq!(encoder.encode_message("{}").unwrap(), b"data: {}\n\n".to_vec());
    assert_eq!(SseEncoder::to_uint8_array("\u{e9}"), vec![0xC3, 0xA9]);
}

#[test]
fn json_writer_escapes_and_reader_reads_back() {
    let v = obj(vec![
        ("s", jstr("a\"b\\c\nd\u{1}")),
        ("n", num("-1.5e3")),
        ("a", JsonValue::Array(vec![JsonValue::Bool(false), JsonValue::Null])),
    ]);
    let t = write_json(&v).expect("writes");
    assert_eq!(t, "{\"s\":\"a\\\"b\\\\c\\nd\\u0001\",\"n\":-1.5e3,\"a\":[false,null]}");
    let back = parse_json(t.as_bytes()).expect("reads");
    let again = write_json(&back).expect("writes");
    assert_eq!(again, "{\"s\":\"a\\\"b\\\\c\\nd\\u0001\",\"n\":-1500.0,\"a\":[false,null]}");
    assert!(parse_json(b"{").is_none());
}

#[test]
fn kind_and_role_names() {
    assert_eq!(EventType::ThinkingTextMessageContent.as_str(), "THINKING_TEXT_MESSAGE_CONTENT");
    assert_eq!(EventType::from_name("TOOL_CALL_ARGS"), Some(EventType::ToolCallArgs));
    assert_eq!(EventType::from_name("tool_call_args"), None);
    assert_eq!(Role::Developer.as_str(), "developer");
    assert_eq!(Role::from_name("tool"), Some(Role::Tool));
    assert_eq!(Role::from_name("robot"), None);
    assert_eq!(PatchOp::from_name("copy"), Some(PatchOp::Copy));
}

#[test]
fn timestamps_are_checked_by_chrono() {
    assert!(Timestamp::parse("1996-12-19T16:39:57-08:00").is_some());
    assert!(Timestamp::parse("1996-12-19 16:39").is_none());
    let now = Timestamp::now();
    assert!(Timestamp::parse(now.as_str()).is_some());
    assert_eq!(Timestamp::parse("2020-01-01T00:00:00Z").unwrap().as_str(), "2020-01-01T00:00:00Z");
}

#[test]
fn a_repeated_key_keeps_the_last_value_in_the_first_place() {
    let e = decode_one("{\"type\":\"RUN_STARTED\",\"thread_id\":\"a\",\"run_id\":\"r\",\"thread_id\":\"b\"}")
        .expect("decodes");
    match &e.data {
        EventData::RunStarted(p) => assert_eq!(p.thread_id, "b"),
        other => panic!("unexpected payload {:?}", other),
    }
}

#[test]
fn repeated_keys_are_refused_by_the_writer() {
    let dup = obj(vec![("a", num("1")), ("a", num("2"))]);
    assert!(write_json(&dup).is_none());
    let nested = JsonValue::Array(vec![obj(vec![("k", JsonValue::Null), ("k", JsonValue::Null)])]);
    assert!(write_json(&nested).is_none());
    assert!(write_json(&obj(vec![("a", num("1")), ("b", num("1"))])).is_some());
    let e = event(EventData::StateSnapshot(StateSnapshotEvent {
        state: vec![(text("x"), num("1")), (text("x"), num("2"))],
    }));
    assert!(matches!(SseEncoder::encode_event_string(&e), Err(AgUiError::EncodingError(_))));
}

#[test]
fn control_characters_never_reach_the_frame_raw() {
    let e = event(EventData::TextMessageContent(TextMessageContentEvent {
        message_id: text("m"),
        delta: text("a\rb\nc\u{1f}"),
    }));
    let f = frame(&e);
    assert_eq!(f.matches('\n').count(), 2);
    assert!(!f.contains('\r'));
    assert!(f.contains("a\\rb\\nc\\u001f"));
}

#[test]
fn a_refused_batch_reports_its_first_refused_event() {
    let ok = event(EventData::Raw(RawEvent { event: num("1") }));
    let bad_number = event(EventData::Raw(RawEvent { event: num("NaN") }));
    let reserved = event(EventData::Custom(CustomEvent {
        event_type: text("x"),
        data: vec![(text("timestamp"), jstr("y"))],
    }));
    match SseEncoder::encode_events_string(&[ok, reserved, bad_number]) {
        Err(AgUiError::EncodingError(m)) => assert_eq!(m, "custom event data uses a reserved key"),
        other => panic!("unexpected outcome {:?}", other),
    }
    let bad_number = event(EventData::Raw(RawEvent { event: num("NaN") }));
    match SseEncoder::encode_event_string(&bad_number) {
        Err(AgUiError::EncodingError(m)) => assert_eq!(m, "a number is not valid JSON or an object repeats a key"),
        other => panic!("unexpected outcome {:?}", other),
    }
}
