//! The Server-Sent-Events encoder: one self-terminated frame per event.
use vstd::prelude::*;
use vstd::string::*;

use crate::error::AgUiError;
use crate::events::{fits_wire, BaseEvent};
use crate::json::{json_text, single_line, write_json, writable};

verus! {

/// A data frame: `data: `, the payload, and an empty line.
pub open spec fn data_frame(payload: Seq<char>) -> Seq<char> {
    "data: "@ + payload + "\n\n"@
}

/// A comment frame: `: `, the text, and a line feed.
pub open spec fn comment_frame(text: Seq<char>) -> Seq<char> {
    ": "@ + text + "\n"@
}

/// Whether the encoder writes the event: it fits the wire, every number in it is one that
/// serde_json reads, and no object in it repeats a key.
pub open spec fn encodable(e: BaseEvent) -> bool {
    fits_wire(e) && writable(e@)
}

/// Why the encoder refuses an event that is not `encodable`.
pub open spec fn refusal(e: BaseEvent) -> Seq<char> {
    if !fits_wire(e) {
        "custom event data uses a reserved key"@
    } else {
        "a number is not valid JSON or an object repeats a key"@
    }
}

/// The frame of an event: its compact JSON text as a data frame.
pub open spec fn event_frame(e: BaseEvent) -> Seq<char> {
    data_frame(json_text(e@))
}

/// The frames of events, one after another in order.
pub open spec fn batch_text(es: Seq<BaseEvent>) -> Seq<char>
    decreases es.len(),
{
    if es.len() == 0 {
        Seq::empty()
    } else {
        batch_text(es.drop_last()) + event_frame(es.last())
    }
}

/// Turns text into the bytes that go on the wire.
fn text_bytes(s: &str) -> (r: Vec<u8>)
    ensures
        r@ == s.spec_bytes(),
{
    vstd::slice::slice_to_vec(s.as_bytes())
}

/// Encodes events as Server-Sent-Events frames. It holds no state: one encoder can serve
/// any number of producers.
#[derive(Debug)]
pub struct SseEncoder {}

impl SseEncoder {
    /// An encoder.
    pub fn new() -> (r: SseEncoder)
        ensures
            r == (SseEncoder {  }),
    {
        SseEncoder {  }
    }

    /// An encoder; creating one does not fail.
    pub fn new_internal() -> (r: Result<SseEncoder, AgUiError>)
        ensures
            r is Ok,
    {
        Ok(SseEncoder {  })
    }

    /// The frame of one event as text: `data: `, the event's compact JSON on one line, and an
    /// empty line. Fails, with an encoding error that says why, exactly when the event cannot
    /// be written.
    pub fn encode_event_string(event: &BaseEvent) -> (r: Result<String, AgUiError>)
        ensures
            r is Ok <==> encodable(*event),
            match r {
                Ok(s) => s@ == event_frame(*event) && single_line(json_text(event@)),
                Err(e) => e matches AgUiError::EncodingError(m) && m@ == refusal(*event),
            },
    {
        if !event.fits_wire() {
            return Err(AgUiError::EncodingError("custom event data uses a reserved key".to_owned()));
        }
        let j = event.to_json();
        match write_json(&j) {
            None => Err(
                AgUiError::EncodingError(
                    "a number is not valid JSON or an object repeats a key".to_owned(),
                ),
            ),
            Some(t) => {
                let mut s = String::new();
                s.append("data: ");
                s.append(t.as_str());
                s.append("\n\n");
                Ok(s)
            },
        }
    }

    /// The frames of the events, one after another in the order given. Fails exactly when one
    /// of the events cannot be written, with the encoding error of the first such event.
    pub fn encode_events_string(events: &[BaseEvent]) -> (r: Result<String, AgUiError>)
        ensures
            r is Ok <==> forall|i: int| 0 <= i < events@.len() ==> encodable(#[trigger] events@[i]),
            match r {
                Ok(s) => s@ == batch_text(events@) && forall|i: int|
                    0 <= i < events@.len() ==> single_line(json_text(#[trigger] events@[i]@)),
                Err(e) => exists|i: int|
                    0 <= i < events@.len() && !encodable(#[trigger] events@[i]) && (forall|k: int|
                        0 <= k < i ==> encodable(#[trigger] events@[k])) && (e matches AgUiError::EncodingError(
                        m,
                    ) && m@ == refusal(events@[i])),
            },
    {
        let mut result = String::new();
        let mut i: usize = 0;
        assert(events@.subrange(0, 0) =~= Seq::<BaseEvent>::empty());
        while i < events.len()
            invariant
                i <= events@.len(),
                forall|k: int| 0 <= k < i ==> encodable(#[trigger] events@[k]),
                forall|k: int| 0 <= k < i ==> single_line(json_text(#[trigger] events@[k]@)),
                result@ == batch_text(events@.subrange(0, i as int)),
            decreases events@.len() - i,
        {
            match SseEncoder::encode_event_string(&events[i]) {
                Ok(frame) => {
                    result.append(frame.as_str());
                    assert(events@.subrange(0, i + 1).drop_last() =~= events@.subrange(0, i as int));
                },
                Err(e) => {
                    assert(!encodable(events@[i as int]));
                    return Err(e);
                },
            }
            i += 1;
        }
        assert(events@.subrange(0, i as int) =~= events@);
        Ok(result)
    }

    /// The frame of one event as bytes.
    pub fn encode_event(&self, event: &BaseEvent) -> (r: Result<Vec<u8>, AgUiError>)
        ensures
            r is Ok <==> encodable(*event),
            match r {
                Ok(b) => b@ == vstd::utf8::encode_utf8(event_frame(*event)),
                Err(e) => e matches AgUiError::EncodingError(m) && m@ == refusal(*event),
            },
    {
        let s = SseEncoder::encode_event_string(event)?;
        Ok(text_bytes(s.as_str()))
    }

    /// A data frame holding the given text as it is.
    pub fn encode_message(&self, message: &str) -> (r: Result<Vec<u8>, AgUiError>)
        ensures
            r matches Ok(b) && b@ == vstd::utf8::encode_utf8(data_frame(message@)),
    {
        let mut s = String::new();
        s.append("data: ");
        s.append(message);
        s.append("\n\n");
        Ok(text_bytes(s.as_str()))
    }

    /// A comment frame; it carries no event.
    pub fn encode_comment(&self, comment: &str) -> (r: Result<Vec<u8>, AgUiError>)
        ensures
            r matches Ok(b) && b@ == vstd::utf8::encode_utf8(comment_frame(comment@)),
    {
        let mut s = String::new();
        s.append(": ");
        s.append(comment);
        s.append("\n");
        Ok(text_bytes(s.as_str()))
    }

    /// The keep-alive frame `: ping` followed by an empty line.
    pub fn encode_ping(&self) -> (r: Result<Vec<u8>, AgUiError>)
        ensures
            r matches Ok(b) && b@ == vstd::utf8::encode_utf8(": ping\n\n"@),
    {
        Ok(text_bytes(": ping\n\n"))
    }

    /// The bytes of a text, ready to send.
    pub fn to_uint8_array(sse_data: &str) -> (r: Vec<u8>)
        ensures
            r@ == vstd::utf8::encode_utf8(sse_data@),
    {
        text_bytes(sse_data)
    }
}

impl Default for SseEncoder {
    fn default() -> (r: SseEncoder)
        ensures
            r == (SseEncoder {  }),
    {
        SseEncoder::new()
    }
}

} // verus!
