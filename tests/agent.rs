use ag_ui_wasm::json::{parse_json, write_json};
use ag_ui_wasm::{
    Agent, AgUiError, BaseEvent, Context, DecodeError, EventData, EventType, JsonValue, Message,
    Role, RunAgentInput, RunStartedEvent, SseEncoder, Timestamp, Tool, WebAgent,
};

fn payload_of(e: &BaseEvent) -> String {
    let f = SseEncoder::encode_event_string(e).expect("encodes");
    f[6..f.len() - 2].to_string()
}

#[test]
fn constructors_stamp_the_time_and_set_the_payload() {
    let e = BaseEvent::run_started("t".to_string(), "r".to_string());
    assert_eq!(e.event_type(), EventType::RunStarted);
    assert!(e.timestamp.is_some());
    assert!(e.raw_event.is_none());
    let p = payload_of(&e);
    assert!(p.starts_with("{\"type\":\"RUN_STARTED\",\"timestamp\":\""));
    assert!(p.ends_with("\"thread_id\":\"t\",\"run_id\":\"r\"}"));
    assert_eq!(BaseEvent::run_finished("t".into(), "r".into()).event_type(), EventType::RunFinished);
    assert_eq!(BaseEvent::text_message_content("m".into(), "d".into()).event_type(), EventType::TextMessageContent);
    assert_eq!(BaseEvent::text_message_end("m".into()).event_type(), EventType::TextMessageEnd);
    let s = BaseEvent::text_message_start("m".into(), Some(Role::System));
    assert!(payload_of(&s).contains("\"role\":\"system\""));
    let err = BaseEvent::error("bad".into(), Some("E1".into()));
    match &err.data {
        EventData::Error(p) => {
            assert_eq!(p.error, "bad");
            assert_eq!(p.code.as_deref(), Some("E1"));
            assert!(p.details.is_none());
        }
        other => panic!("unexpected payload {:?}", other),
    }
    let back = ag_ui_wasm::decode_one(&payload_of(&e)).expect("decodes");
    assert_eq!(payload_of(&back), payload_of(&e));
}

#[test]
fn constructors_with_a_given_time_use_it() {
    let t = || Timestamp::parse("2024-02-03T04:05:06Z").unwrap();
    let e = BaseEvent::run_started_at("t".into(), "r".into(), t());
    assert_eq!(e.timestamp.as_ref().map(|x| x.as_str()), Some("2024-02-03T04:05:06Z"));
    assert!(matches!(&e.data, EventData::RunStarted(RunStartedEvent { thread_id, run_id }) if thread_id == "t" && run_id == "r"));
    assert_eq!(
        payload_of(&e),
        "{\"type\":\"RUN_STARTED\",\"timestamp\":\"2024-02-03T04:05:06Z\",\"thread_id\":\"t\",\"run_id\":\"r\"}"
    );
    assert_eq!(BaseEvent::run_finished_at("t".into(), "r".into(), t()).event_type(), EventType::RunFinished);
    assert_eq!(BaseEvent::text_message_content_at("m".into(), "d".into(), t()).event_type(), EventType::TextMessageContent);
    assert_eq!(BaseEvent::text_message_start_at("m".into(), None, t()).event_type(), EventType::TextMessageStart);
    assert_eq!(BaseEvent::text_message_end_at("m".into(), t()).event_type(), EventType::TextMessageEnd);
    assert!(BaseEvent::error_at("x".into(), None, t()).timestamp.is_some());
    let m = Message::with_id_at(Role::Tool, "c".into(), "id-1".into(), t());
    assert_eq!(m.id, "id-1");
    assert_eq!(m.created_at.unwrap().as_str(), "2024-02-03T04:05:06Z");
}

#[test]
fn new_message_has_a_fresh_id() {
    let a = Message::new(Role::Developer, "note".to_string());
    let b = Message::new(Role::Developer, "note".to_string());
    assert_eq!(a.id.len(), 36);
    let c: Vec<char> = a.id.chars().collect();
    assert_eq!((c[8], c[13], c[14], c[18], c[23]), ('-', '-', '4', '-', '-'));
    assert!(matches!(c[19], '8' | '9' | 'a' | 'b'));
    assert!(c.iter().all(|x| *x == '-' || x.is_ascii_digit() || ('a'..='f').contains(x)));
    assert_ne!(a.id, b.id);
    assert_eq!(a.role, Role::Developer);
    assert_eq!(a.content, "note");
    assert!(a.created_at.is_some());
    assert!(a.name.is_none() && a.tool_calls.is_none() && a.metadata.is_none());
}

#[test]
fn run_input_request_body() {
    let mut input = RunAgentInput::new("thread_123".to_string(), "run_123".to_string());
    assert_eq!(input.request_body().expect("body"), "{\"thread_id\":\"thread_123\",\"run_id\":\"run_123\"}");
    input.tools = Some(vec![Tool { name: "search".into(), description: "web".into(), parameters: None }]);
    input.context = Some(vec![Context { user_id: Some("u1".into()), session_id: None, metadata: None }]);
    input.forwarded_props = Some(vec![("flag".to_string(), JsonValue::Bool(true))]);
    assert_eq!(
        input.request_body().expect("body"),
        "{\"thread_id\":\"thread_123\",\"run_id\":\"run_123\",\"tools\":[{\"name\":\"search\",\"description\":\"web\"}],\"context\":[{\"user_id\":\"u1\"}],\"forwarded_props\":{\"flag\":true}}"
    );
    input.state = Some(vec![("x".to_string(), JsonValue::Number("Infinity".into()))]);
    assert!(matches!(input.request_body(), Err(AgUiError::EncodingError(_))));
}

#[test]
fn web_agent_keeps_ids_messages_and_state() {
    let mut agent = WebAgent::new("https://example.test/agent".to_string());
    assert_eq!(agent.url(), "https://example.test/agent");
    assert_eq!(Agent::agent_id(&agent), None);
    agent.set_agent_id("a1".to_string());
    agent.set_thread_id("t1".to_string());
    assert_eq!(Agent::agent_id(&agent).as_deref(), Some("a1"));
    assert_eq!(Agent::thread_id(&agent).as_deref(), Some("t1"));
    assert!(Agent::messages(&agent).is_empty());
    Agent::set_messages(&mut agent, vec![Message::new(Role::User, "hi".to_string())]);
    Agent::set_state(&mut agent, vec![("count".to_string(), JsonValue::Number("1".into()))]);
    assert_eq!(Agent::messages(&agent)[0].content, "hi");
    let state = Agent::state(&agent);
    assert_eq!(write_json(&JsonValue::Object(state)).unwrap(), "{\"count\":1}");
    match Agent::run_agent(&agent, RunAgentInput::new("t".into(), "r".into())) {
        Err(AgUiError::AgentError(m)) => assert_eq!(m, "Use run_agent_js() for async operation in WASM environment"),
        other => panic!("unexpected outcome {:?}", other.map(|_| ())),
    }
}

#[test]
fn prepared_input_takes_kept_messages_and_state_only_when_absent() {
    let mut agent = WebAgent::new("u".to_string());
    let bare = agent.prepare_input(RunAgentInput::new("t".into(), "r".into()));
    assert!(bare.messages.is_none() && bare.state.is_none());
    agent.set_messages(vec![Message::new(Role::User, "kept".to_string())]);
    agent.set_state(vec![("k".to_string(), JsonValue::Null)]);
    let filled = agent.prepare_input(RunAgentInput::new("t".into(), "r".into()));
    assert_eq!(filled.messages.as_ref().unwrap()[0].content, "kept");
    assert_eq!(filled.state.as_ref().unwrap()[0].0, "k");
    let mut own = RunAgentInput::new("t".into(), "r".into());
    own.messages = Some(vec![]);
    own.state = Some(vec![]);
    let kept = agent.prepare_input(own);
    assert!(kept.messages.unwrap().is_empty());
    assert!(kept.state.unwrap().is_empty());
}

#[test]
fn run_input_reads_back_from_json() {
    let text = "{\"thread_id\":\"t\",\"run_id\":\"r\",\"messages\":[{\"id\":\"m1\",\"role\":\"user\",\"content\":\"hi\"}],\"tools\":[{\"name\":\"s\",\"description\":\"d\"}],\"context\":[{\"user_id\":\"u\"}],\"state\":{\"k\":1},\"forwarded_props\":null}";
    let input = RunAgentInput::from_json(&parse_json(text.as_bytes()).unwrap()).expect("reads");
    assert_eq!(input.messages.as_ref().unwrap()[0].content, "hi");
    assert_eq!(input.tools.as_ref().unwrap()[0].name, "s");
    assert!(input.forwarded_props.is_none());
    assert_eq!(
        input.request_body().unwrap(),
        "{\"thread_id\":\"t\",\"run_id\":\"r\",\"messages\":[{\"id\":\"m1\",\"role\":\"user\",\"content\":\"hi\"}],\"tools\":[{\"name\":\"s\",\"description\":\"d\"}],\"context\":[{\"user_id\":\"u\"}],\"state\":{\"k\":1}}"
    );
    match RunAgentInput::from_json(&parse_json(b"{\"thread_id\":\"t\"}").unwrap()) {
        Err(DecodeError::MissingField(k)) => assert_eq!(k, "run_id"),
        other => panic!("unexpected outcome {:?}", other),
    }
    assert!(matches!(RunAgentInput::from_json(&parse_json(b"[]").unwrap()), Err(DecodeError::NotAnObject)));
    match RunAgentInput::from_json(&parse_json(b"{\"thread_id\":\"t\",\"run_id\":\"r\",\"tools\":[1]}").unwrap()) {
        Err(DecodeError::InvalidField(k)) => assert_eq!(k, "tools"),
        other => panic!("unexpected outcome {:?}", other),
    }
}
