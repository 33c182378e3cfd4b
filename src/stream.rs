//! The event decoder: lines of a byte stream to events, one outcome per data line.
use vstd::prelude::*;
use vstd::string::StringSliceAdditionalSpecFns;

use crate::error::AgUiError;
use crate::events::{event_members, event_read, BaseEvent};
use crate::fields::{DecodeError, DecodeFault};
use crate::framing::{end_lines, scan, FrameReassembler};
use crate::json::{json_read, parse_json, Member};

verus! {

/// The bytes `data: ` that open a data line.
pub open spec fn data_prefix() -> Seq<u8> {
    seq![100u8, 97u8, 116u8, 97u8, 58u8, 32u8]
}

/// Whether a line is a data line.
pub open spec fn is_data_line(l: Seq<u8>) -> bool {
    l.len() >= 6 && l.subrange(0, 6) == data_prefix()
}

/// What decoding a payload gives: the members of the event, or why there is none.
pub type Outcome = Result<Seq<Member>, DecodeFault>;

/// Reads the payload bytes as one JSON document, then as an event.
pub open spec fn decode_bytes(b: Seq<u8>) -> Outcome {
    match json_read(b) {
        None => Err(DecodeFault::MalformedJson),
        Some(j) => event_read(j),
    }
}

/// What a line gives: nothing for a line that is not a data line, else the outcome of its
/// payload.
pub open spec fn line_outcome(l: Seq<u8>) -> Option<Outcome> {
    if is_data_line(l) {
        Some(decode_bytes(l.subrange(6, l.len() as int)))
    } else {
        None
    }
}

/// The outcomes of lines, in order; lines that are not data lines give none.
pub open spec fn outcomes(lines: Seq<Seq<u8>>) -> Seq<Outcome>
    decreases lines.len(),
{
    if lines.len() == 0 {
        Seq::empty()
    } else {
        let before = outcomes(lines.drop_last());
        match line_outcome(lines.last()) {
            Some(o) => before.push(o),
            None => before,
        }
    }
}

/// A decoded event or error, as contracts speak of it.
pub open spec fn outcome_of(r: Result<BaseEvent, AgUiError>) -> Outcome {
    match r {
        Ok(e) => Ok(event_members(e)),
        Err(AgUiError::JsonError(d)) => Err(d@),
        Err(_) => Err(DecodeFault::MalformedJson),
    }
}

pub open spec fn outcomes_of(v: Seq<Result<BaseEvent, AgUiError>>) -> Seq<Outcome> {
    Seq::new(v.len(), |i: int| outcome_of(v[i]))
}

/// Whether every failure is a decoding failure.
pub open spec fn decode_failures(v: Seq<Result<BaseEvent, AgUiError>>) -> bool {
    forall|i: int| 0 <= i < v.len() ==> (#[trigger] v[i] matches Err(e) ==> e is JsonError)
}

/// Decodes the payload of a data line: JSON text in UTF-8.
pub fn decode_payload(b: &[u8]) -> (r: Result<BaseEvent, AgUiError>)
    ensures
        outcome_of(r) == decode_bytes(b@),
        r matches Err(e) ==> e is JsonError,
{
    match parse_json(b) {
        None => Err(AgUiError::JsonError(DecodeError::MalformedJson)),
        Some(v) => match BaseEvent::from_json(&v) {
            Ok(e) => Ok(e),
            Err(d) => Err(AgUiError::JsonError(d)),
        },
    }
}

/// Decodes one JSON document that is known whole.
pub fn decode_one(text: &str) -> (r: Result<BaseEvent, AgUiError>)
    ensures
        outcome_of(r) == decode_bytes(text.spec_bytes()),
        r matches Err(e) ==> e is JsonError,
{
    decode_payload(text.as_bytes())
}

/// Whether a line opens with `data: `.
pub fn is_data_line_exec(line: &[u8]) -> (r: bool)
    ensures
        r == is_data_line(line@),
{
    if line.len() < 6 {
        return false;
    }
    let r = line[0] == 100u8 && line[1] == 97u8 && line[2] == 116u8 && line[3] == 97u8 && line[4]
        == 58u8 && line[5] == 32u8;
    if r {
        assert(line@.subrange(0, 6) =~= data_prefix());
    }
    r
}

/// What one line gives: nothing when it is not a data line, else the event or the failure.
pub fn decode_line(line: &[u8]) -> (r: Option<Result<BaseEvent, AgUiError>>)
    ensures
        match r {
            Some(x) => line_outcome(line@) == Some(outcome_of(x)) && (x matches Err(e) ==> e is JsonError),
            None => line_outcome(line@) is None,
        },
{
    if !is_data_line_exec(line) {
        return None;
    }
    let payload = vstd::slice::slice_subrange(line, 6, line.len());
    Some(decode_payload(payload))
}

/// The outcomes of lines, in order; a failure on one line does not stop the others.
pub fn decode_lines(lines: &Vec<Vec<u8>>) -> (r: Vec<Result<BaseEvent, AgUiError>>)
    ensures
        outcomes_of(r@) == outcomes(lines.deep_view()),
        decode_failures(r@),
{
    let mut r: Vec<Result<BaseEvent, AgUiError>> = Vec::new();
    let mut i: usize = 0;
    let ghost all = lines.deep_view();
    assert(all.subrange(0, 0) =~= Seq::<Seq<u8>>::empty());
    assert(outcomes_of(r@) =~= Seq::<Outcome>::empty());
    while i < lines.len()
        invariant
            all == lines.deep_view(),
            i <= lines@.len(),
            outcomes_of(r@) == outcomes(all.subrange(0, i as int)),
            decode_failures(r@),
        decreases lines@.len() - i,
    {
        assert(all.subrange(0, i + 1).drop_last() =~= all.subrange(0, i as int));
        assert(all[i as int] =~= lines@[i as int]@);
        let ghost before = r@;
        match decode_line(lines[i].as_slice()) {
            Some(x) => {
                r.push(x);
                assert(outcomes_of(r@) =~= outcomes_of(before).push(outcome_of(x)));
            },
            None => {},
        }
        i += 1;
    }
    assert(all.subrange(0, i as int) =~= all);
    r
}

/// Decodes a byte stream that arrives in chunks.
#[derive(Debug)]
pub struct EventStream {
    lines: FrameReassembler,
}

impl View for EventStream {
    type V = Seq<u8>;

    /// The bytes of the line not ended yet.
    closed spec fn view(&self) -> Seq<u8> {
        self.lines@
    }
}

impl EventStream {
    /// A stream with nothing pending.
    pub fn new() -> (r: EventStream)
        ensures
            r@ == Seq::<u8>::empty(),
    {
        EventStream { lines: FrameReassembler::new() }
    }

    /// Takes the next chunk and returns the outcomes of the lines it completes.
    pub fn push_chunk(&mut self, chunk: &[u8]) -> (r: Vec<Result<BaseEvent, AgUiError>>)
        ensures
            outcomes_of(r@) == outcomes(scan((Seq::empty(), old(self)@), chunk@).0),
            final(self)@ == scan((Seq::empty(), old(self)@), chunk@).1,
            decode_failures(r@),
    {
        let lines = self.lines.push_chunk(chunk);
        decode_lines(&lines)
    }

    /// Ends the stream: the outcome of the unfinished last line, if it is a data line.
    pub fn finish(&mut self) -> (r: Vec<Result<BaseEvent, AgUiError>>)
        ensures
            outcomes_of(r@) == outcomes(end_lines(old(self)@)),
            final(self)@ == Seq::<u8>::empty(),
            decode_failures(r@),
    {
        let mut lines: Vec<Vec<u8>> = Vec::new();
        match self.lines.finish() {
            Some(l) => {
                assert(l.deep_view() =~= l@);
                lines.push(l);
                assert(lines.deep_view()[0] == l.deep_view());
                assert(lines.deep_view() =~= seq![l@]);
            },
            None => {
                assert(lines.deep_view() =~= Seq::<Seq<u8>>::empty());
            },
        }
        decode_lines(&lines)
    }
}

} // verus!
