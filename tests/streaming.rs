use ag_ui_wasm::{
    decode_line, AgUiError, BaseEvent, EventData, EventStream, EventType, FrameReassembler,
    RunStartedEvent, SseEncoder, TextMessageContentEvent,
};

fn run_started() -> BaseEvent {
    BaseEvent {
        timestamp: None,
        raw_event: None,
        data: EventData::RunStarted(RunStartedEvent { thread_id: "t".to_string(), run_id: "r".to_string() }),
    }
}

fn feed(chunks: &[&[u8]]) -> Vec<Vec<u8>> {
    let mut r = FrameReassembler::new();
    let mut lines = Vec::new();
    for c in chunks {
        lines.extend(r.push_chunk(c));
    }
    if let Some(last) = r.finish() {
        lines.push(last);
    }
    lines
}

fn decode_all(chunks: &[&[u8]]) -> Vec<Result<BaseEvent, AgUiError>> {
    let mut s = EventStream::new();
    let mut out = Vec::new();
    for c in chunks {
        out.extend(s.push_chunk(c));
    }
    out.extend(s.finish());
    out
}

#[test]
fn run_started_frame_split_at_every_offset() {
    let bytes = SseEncoder::new().encode_event(&run_started()).expect("encodes");
    assert_eq!(bytes, b"data: {\"type\":\"RUN_STARTED\",\"thread_id\":\"t\",\"run_id\":\"r\"}\n\n".to_vec());
    for cut in 0..=bytes.len() {
        let (a, b) = bytes.split_at(cut);
        let out = decode_all(&[a, b]);
        assert_eq!(out.len(), 1, "cut at {}", cut);
        match &out[0] {
            Ok(e) => match &e.data {
                EventData::RunStarted(p) => {
                    assert_eq!(p.thread_id, "t");
                    assert_eq!(p.run_id, "r");
                }
                other => panic!("unexpected payload {:?}", other),
            },
            Err(e) => panic!("cut at {}: {:?}", cut, e),
        }
    }
}

#[test]
fn comment_then_data_line_gives_one_event() {
    let mut bytes = SseEncoder::new().encode_ping().unwrap();
    bytes.extend(SseEncoder::new().encode_event(&run_started()).unwrap());
    let out = decode_all(&[&bytes]);
    assert_eq!(out.len(), 1);
    assert_eq!(out[0].as_ref().expect("event").event_type(), EventType::RunStarted);
}

#[test]
fn chunking_does_not_change_lines() {
    let text = "data: {\"a\":\"\u{e9}\u{1F600}\"}\n\n: note\nlast line without end".as_bytes().to_vec();
    let whole = feed(&[&text]);
    assert_eq!(whole.len(), 4);
    assert_eq!(whole[1], Vec::<u8>::new());
    assert_eq!(whole[3], b"last line without end".to_vec());
    let ones: Vec<&[u8]> = text.chunks(1).collect();
    assert_eq!(feed(&ones), whole);
    for size in 2..9 {
        let parts: Vec<&[u8]> = text.chunks(size).collect();
        assert_eq!(feed(&parts), whole, "chunks of {}", size);
    }
    // a split in the middle of the four bytes of the emoji
    let at = text.iter().position(|b| *b == 0xF0).unwrap() + 2;
    assert_eq!(feed(&[&text[..at], &text[at..]]), whole);
}

#[test]
fn pending_bytes_wait_for_a_line_feed() {
    let mut r = FrameReassembler::new();
    assert!(r.push_chunk(b"data: {").is_empty());
    assert!(r.has_pending());
    let lines = r.push_chunk(b"}\nrest");
    assert_eq!(lines, vec![b"data: {}".to_vec()]);
    assert_eq!(r.finish(), Some(b"rest".to_vec()));
    assert_eq!(r.finish(), None);
}

#[test]
fn empty_remainder_is_dropped_at_end() {
    assert_eq!(feed(&[b"a\n"]), vec![b"a".to_vec()]);
    assert_eq!(feed(&[]), Vec::<Vec<u8>>::new());
}

#[test]
fn a_bad_line_does_not_stop_the_stream() {
    let mut bytes = b"data: {not json}\n\ndata: {\"type\":\"NOPE\"}\n\n".to_vec();
    let good = BaseEvent {
        timestamp: None,
        raw_event: None,
        data: EventData::TextMessageContent(TextMessageContentEvent {
            message_id: "m".to_string(),
            delta: "x".to_string(),
        }),
    };
    bytes.extend(SseEncoder::new().encode_event(&good).unwrap());
    let out = decode_all(&[&bytes]);
    assert_eq!(out.len(), 3);
    assert!(matches!(out[0], Err(AgUiError::JsonError(_))));
    assert!(matches!(out[1], Err(AgUiError::JsonError(_))));
    assert_eq!(out[2].as_ref().expect("event").event_type(), EventType::TextMessageContent);
}

#[test]
fn lines_without_the_data_prefix_are_skipped() {
    assert!(decode_line(b": ping").is_none());
    assert!(decode_line(b"event: x").is_none());
    assert!(decode_line(b"").is_none());
    assert!(decode_line(b"data:{}").is_none());
    assert!(decode_line(b"data: {}").is_some());
}

#[test]
fn final_line_without_line_feed_is_decoded() {
    let bytes = b"data: {\"type\":\"RUN_FINISHED\",\"thread_id\":\"t\",\"run_id\":\"r\"}";
    let out = decode_all(&[bytes]);
    assert_eq!(out.len(), 1);
    assert_eq!(out[0].as_ref().expect("event").event_type(), EventType::RunFinished);
}
