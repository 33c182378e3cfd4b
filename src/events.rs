//! Events: the envelope shared by every event, the closed union of payloads, and how an
//! event maps to and from a JSON object.
use vstd::prelude::*;

use crate::fields::{
    both, object_field, object_member, opt_text_field, opt_text_member, opt_value_field,
    opt_value_member, push_member, push_object, push_opt_text, push_opt_value, push_text,
    push_time, push_value, read_object, read_opt_text, read_opt_value, read_text, read_time,
    read_value, text_field, text_member, time_field, time_member, value_field, value_member,
    DecodeError, DecodeFault, Read,
};
use crate::json::{
    field_of, find_member, json_view, lemma_field_of_concat, lemma_field_of_single,
    lemma_field_of_none, lemma_members_push, lemma_object_view, members_view, same_text, Json,
    JsonValue, Member,
};
use crate::kinds::{kind_name, kind_of_name, lemma_kind_of_own_name, EventType};
use crate::time::{is_rfc3339, Timestamp};
use crate::types::{
    lemma_read_items_back, lemma_read_items_fail, list_field, opt_role_member, push_opt_role,
    read_items, read_role, record_field, role_field, tool_call_reader, Message, PatchOperation,
    Role, ToolCall, ToolResult,
};

verus! {

broadcast use {lemma_field_of_concat, lemma_field_of_single};

// ----- members that a custom event cannot use -----
/// The keys of the envelope and of a custom event's name; a custom event's data members
/// are all the others.
pub open spec fn is_reserved(k: Seq<char>) -> bool {
    k == "type"@ || k == "timestamp"@ || k == "raw_event"@ || k == "event_type"@
}

/// The members whose keys are not reserved, in order.
pub open spec fn unreserved(es: Seq<Member>) -> Seq<Member>
    decreases es.len(),
{
    if es.len() == 0 {
        Seq::empty()
    } else if is_reserved(es.last().0) {
        unreserved(es.drop_last())
    } else {
        unreserved(es.drop_last()).push(es.last())
    }
}

pub proof fn lemma_unreserved_concat(a: Seq<Member>, b: Seq<Member>)
    ensures
        unreserved(a + b) == unreserved(a) + unreserved(b),
    decreases b.len(),
{
    if b.len() == 0 {
        assert(a + b =~= a);
        assert(unreserved(a) + Seq::<Member>::empty() =~= unreserved(a));
    } else {
        assert((a + b).drop_last() =~= a + b.drop_last());
        lemma_unreserved_concat(a, b.drop_last());
        if !is_reserved(b.last().0) {
            assert((unreserved(a) + unreserved(b.drop_last())).push(b.last()) =~= unreserved(a)
                + unreserved(b.drop_last()).push(b.last()));
        }
    }
}

pub proof fn lemma_unreserved_keeps(es: Seq<Member>)
    requires
        forall|i: int| 0 <= i < es.len() ==> !is_reserved(#[trigger] es[i].0),
    ensures
        unreserved(es) == es,
    decreases es.len(),
{
    if es.len() > 0 {
        lemma_unreserved_keeps(es.drop_last());
        assert(es.drop_last().push(es.last()) =~= es);
    }
}

/// Copies the members whose keys are not reserved.
pub fn unreserved_members(es: &Vec<(String, JsonValue)>) -> (r: Vec<(String, JsonValue)>)
    ensures
        members_view(r@) == unreserved(members_view(es@)),
{
    let mut r: Vec<(String, JsonValue)> = Vec::new();
    let mut i: usize = 0;
    assert(members_view(es@).subrange(0, 0) =~= Seq::<Member>::empty());
    assert(members_view(r@) =~= Seq::<Member>::empty());
    while i < es.len()
        invariant
            i <= es@.len(),
            members_view(r@) == unreserved(members_view(es@).subrange(0, i as int)),
        decreases es@.len() - i,
    {
        let ghost pre = members_view(es@).subrange(0, i as int);
        let ghost next = members_view(es@).subrange(0, i + 1);
        assert(next.drop_last() =~= pre);
        assert(next.last() == members_view(es@)[i as int]);
        let k = es[i].0.as_str();
        let reserved = same_text(k, "type") || same_text(k, "timestamp") || same_text(k, "raw_event")
            || same_text(k, "event_type");
        if !reserved {
            let ghost before = r@;
            r.push((es[i].0.clone(), es[i].1.deep_copy()));
            proof {
                lemma_members_push(before, r@[before.len() as int]);
                assert(members_view(r@) =~= members_view(before).push(members_view(es@)[i as int]));
            }
        }
        i += 1;
    }
    assert(members_view(es@).subrange(0, i as int) =~= members_view(es@));
    r
}

/// Appends copies of the members.
pub fn push_all(out: &mut Vec<(String, JsonValue)>, m: &Vec<(String, JsonValue)>)
    ensures
        members_view(final(out)@) == members_view(old(out)@) + members_view(m@),
{
    let ghost start = members_view(out@);
    let mut i: usize = 0;
    assert(start + members_view(m@).subrange(0, 0) =~= start);
    while i < m.len()
        invariant
            i <= m@.len(),
            members_view(out@) == start + members_view(m@).subrange(0, i as int),
        decreases m@.len() - i,
    {
        let ghost before = out@;
        out.push((m[i].0.clone(), m[i].1.deep_copy()));
        proof {
            lemma_members_push(before, out@[out@.len() - 1]);
            assert(start + members_view(m@).subrange(0, i + 1) =~= (start + members_view(m@).subrange(
                0,
                i as int,
            )).push(members_view(m@)[i as int]));
        }
        i += 1;
    }
    assert(members_view(m@).subrange(0, i as int) =~= members_view(m@));
}

// ----- nested records -----
/// Reads a tool result record.
pub open spec fn tool_result_reader() -> spec_fn(Seq<Member>) -> Read {
    |m: Seq<Member>| ToolResult::read(m)
}

/// Reads a message record.
pub open spec fn message_reader() -> spec_fn(Seq<Member>) -> Read {
    |m: Seq<Member>| Message::read(m)
}

/// Reads a patch operation record.
pub open spec fn patch_reader() -> spec_fn(Seq<Member>) -> Read {
    |m: Seq<Member>| PatchOperation::read(m)
}

pub open spec fn opt_tool_call_member(key: Seq<char>, o: Option<ToolCall>) -> Seq<Member> {
    match o {
        Some(t) => seq![(key, Json::Object(t.members()))],
        None => Seq::empty(),
    }
}

pub open spec fn tool_result_member(key: Seq<char>, t: ToolResult) -> Seq<Member> {
    seq![(key, Json::Object(t.members()))]
}

pub open spec fn messages_view(v: Seq<Message>) -> Seq<Json> {
    Seq::new(v.len(), |i: int| Json::Object(v[i].members()))
}

pub open spec fn messages_member(key: Seq<char>, v: Vec<Message>) -> Seq<Member> {
    seq![(key, Json::Array(messages_view(v@)))]
}

pub open spec fn patches_view(v: Seq<PatchOperation>) -> Seq<Json> {
    Seq::new(v.len(), |i: int| Json::Object(v[i].members()))
}

pub open spec fn patches_member(key: Seq<char>, v: Vec<PatchOperation>) -> Seq<Member> {
    seq![(key, Json::Array(patches_view(v@)))]
}

pub fn push_opt_tool_call(out: &mut Vec<(String, JsonValue)>, key: &str, o: &Option<ToolCall>)
    ensures
        members_view(final(out)@) == members_view(old(out)@) + opt_tool_call_member(key@, *o),
{
    match o {
        Some(t) => {
            let mut m: Vec<(String, JsonValue)> = Vec::new();
            assert(members_view(m@) =~= Seq::<Member>::empty());
            t.write_members(&mut m);
            assert(Seq::<Member>::empty() + t.members() =~= t.members());
            proof {
                lemma_object_view(m);
            }
            push_member(out, key, JsonValue::Object(m));
        },
        None => {
            assert(members_view(out@) + Seq::<Member>::empty() =~= members_view(out@));
        },
    }
}

pub fn push_tool_result(out: &mut Vec<(String, JsonValue)>, key: &str, t: &ToolResult)
    ensures
        members_view(final(out)@) == members_view(old(out)@) + tool_result_member(key@, *t),
{
    let mut m: Vec<(String, JsonValue)> = Vec::new();
    assert(members_view(m@) =~= Seq::<Member>::empty());
    t.write_members(&mut m);
    assert(Seq::<Member>::empty() + t.members() =~= t.members());
    proof {
        lemma_object_view(m);
    }
    push_member(out, key, JsonValue::Object(m));
}

pub fn push_messages(out: &mut Vec<(String, JsonValue)>, key: &str, v: &Vec<Message>)
    ensures
        members_view(final(out)@) == members_view(old(out)@) + messages_member(key@, *v),
{
    let mut items: Vec<JsonValue> = Vec::new();
    let mut i: usize = 0;
    while i < v.len()
        invariant
            i <= v@.len(),
            items@.len() == i,
            forall|k: int|
                0 <= k < i ==> json_view(#[trigger] items@[k]) == Json::Object(v@[k].members()),
        decreases v@.len() - i,
    {
        let mut m: Vec<(String, JsonValue)> = Vec::new();
        assert(members_view(m@) =~= Seq::<Member>::empty());
        v[i].write_members(&mut m);
        assert(Seq::<Member>::empty() + v@[i as int].members() =~= v@[i as int].members());
        proof {
            lemma_object_view(m);
        }
        items.push(JsonValue::Object(m));
        i += 1;
    }
    let a = JsonValue::Array(items);
    assert(json_view(a)->Array_0 =~= messages_view(v@));
    push_member(out, key, a);
}

pub fn push_patches(out: &mut Vec<(String, JsonValue)>, key: &str, v: &Vec<PatchOperation>)
    ensures
        members_view(final(out)@) == members_view(old(out)@) + patches_member(key@, *v),
{
    let mut items: Vec<JsonValue> = Vec::new();
    let mut i: usize = 0;
    while i < v.len()
        invariant
            i <= v@.len(),
            items@.len() == i,
            forall|k: int|
                0 <= k < i ==> json_view(#[trigger] items@[k]) == Json::Object(v@[k].members()),
        decreases v@.len() - i,
    {
        let mut m: Vec<(String, JsonValue)> = Vec::new();
        assert(members_view(m@) =~= Seq::<Member>::empty());
        v[i].write_members(&mut m);
        assert(Seq::<Member>::empty() + v@[i as int].members() =~= v@[i as int].members());
        proof {
            lemma_object_view(m);
        }
        items.push(JsonValue::Object(m));
        i += 1;
    }
    let a = JsonValue::Array(items);
    assert(json_view(a)->Array_0 =~= patches_view(v@));
    push_member(out, key, a);
}

pub fn read_opt_tool_call(es: &Vec<(String, JsonValue)>, key: &str) -> (r: Result<
    Option<ToolCall>,
    DecodeError,
>)
    ensures
        match r {
            Ok(o) => record_field(members_view(es@), key@, tool_call_reader(), false) == Read::Ok(
                opt_tool_call_member(key@, o),
            ),
            Err(e) => record_field(members_view(es@), key@, tool_call_reader(), false) == Read::Err(
                e@,
            ),
        },
{
    match find_member(es, key) {
        Some(i) => match &es[i].1 {
            JsonValue::Object(m) => {
                proof {
                    lemma_object_view(*m);
                }
                let t = ToolCall::read_members(m)?;
                Ok(Some(t))
            },
            JsonValue::Null => Ok(None),
            _ => Err(DecodeError::InvalidField(key.to_owned())),
        },
        None => Ok(None),
    }
}

pub fn read_tool_result(es: &Vec<(String, JsonValue)>, key: &str) -> (r: Result<
    ToolResult,
    DecodeError,
>)
    ensures
        match r {
            Ok(t) => record_field(members_view(es@), key@, tool_result_reader(), true) == Read::Ok(
                tool_result_member(key@, t),
            ),
            Err(e) => record_field(members_view(es@), key@, tool_result_reader(), true)
                == Read::Err(e@),
        },
{
    match find_member(es, key) {
        Some(i) => match &es[i].1 {
            JsonValue::Object(m) => {
                proof {
                    lemma_object_view(*m);
                }
                ToolResult::read_members(m)
            },
            _ => Err(DecodeError::InvalidField(key.to_owned())),
        },
        None => Err(DecodeError::MissingField(key.to_owned())),
    }
}

pub fn read_state(es: &Vec<(String, JsonValue)>, key: &str) -> (r: Result<
    Vec<(String, JsonValue)>,
    DecodeError,
>)
    ensures
        match r {
            Ok(m) => object_field(members_view(es@), key@, true) == Read::Ok(object_member(key@, m)),
            Err(e) => object_field(members_view(es@), key@, true) == Read::Err(e@),
        },
{
    match read_object(es, key, true)? {
        Some(m) => Ok(m),
        None => Err(DecodeError::MissingField(key.to_owned())),
    }
}

pub fn read_messages(es: &Vec<(String, JsonValue)>, key: &str) -> (r: Result<
    Vec<Message>,
    DecodeError,
>)
    ensures
        match r {
            Ok(v) => list_field(members_view(es@), key@, message_reader(), true) == Read::Ok(
                messages_member(key@, v),
            ),
            Err(e) => list_field(members_view(es@), key@, message_reader(), true) == Read::Err(e@),
        },
{
    match find_member(es, key) {
        Some(i) => match &es[i].1 {
            JsonValue::Array(items) => {
                let ghost view = json_view(es@[i as int].1)->Array_0;
                let mut out: Vec<Message> = Vec::new();
                let mut k: usize = 0;
                assert(view.subrange(0, 0) =~= Seq::<Json>::empty());
                assert(messages_view(out@) =~= Seq::<Json>::empty());
                while k < items.len()
                    invariant
                        view == json_view(JsonValue::Array(*items))->Array_0,
                        field_of(members_view(es@), key@) == Some(Json::Array(view)),
                        k <= items@.len(),
                        read_items(view.subrange(0, k as int), key@, message_reader()) == Ok::<
                            Seq<Json>,
                            DecodeFault,
                        >(messages_view(out@)),
                    decreases items@.len() - k,
                {
                    let ghost pre = view.subrange(0, k as int);
                    assert(view.subrange(0, k + 1).drop_last() =~= pre);
                    assert(view.subrange(0, k + 1).last() == json_view(items@[k as int]));
                    match &items[k] {
                        JsonValue::Object(m) => {
                            proof {
                                lemma_object_view(*m);
                            }
                            let x = match Message::read_members(m) {
                                Ok(x) => x,
                                Err(e) => {
                                    proof {
                                        lemma_read_items_fail(view, k + 1, key@, message_reader());
                                    }
                                    return Err(e);
                                },
                            };
                            let ghost before = out@;
                            out.push(x);
                            assert(messages_view(out@) =~= messages_view(before).push(
                                Json::Object(x.members()),
                            ));
                        },
                        _ => {
                            proof {
                                lemma_read_items_fail(view, k + 1, key@, message_reader());
                            }
                            return Err(DecodeError::InvalidField(key.to_owned()));
                        },
                    }
                    k += 1;
                }
                assert(view.subrange(0, k as int) =~= view);
                Ok(out)
            },
            _ => Err(DecodeError::InvalidField(key.to_owned())),
        },
        None => Err(DecodeError::MissingField(key.to_owned())),
    }
}

pub fn read_patches(es: &Vec<(String, JsonValue)>, key: &str) -> (r: Result<
    Vec<PatchOperation>,
    DecodeError,
>)
    ensures
        match r {
            Ok(v) => list_field(members_view(es@), key@, patch_reader(), true) == Read::Ok(
                patches_member(key@, v),
            ),
            Err(e) => list_field(members_view(es@), key@, patch_reader(), true) == Read::Err(e@),
        },
{
    match find_member(es, key) {
        Some(i) => match &es[i].1 {
            JsonValue::Array(items) => {
                let ghost view = json_view(es@[i as int].1)->Array_0;
                let mut out: Vec<PatchOperation> = Vec::new();
                let mut k: usize = 0;
                assert(view.subrange(0, 0) =~= Seq::<Json>::empty());
                assert(patches_view(out@) =~= Seq::<Json>::empty());
                while k < items.len()
                    invariant
                        view == json_view(JsonValue::Array(*items))->Array_0,
                        field_of(members_view(es@), key@) == Some(Json::Array(view)),
                        k <= items@.len(),
                        read_items(view.subrange(0, k as int), key@, patch_reader()) == Ok::<
                            Seq<Json>,
                            DecodeFault,
                        >(patches_view(out@)),
                    decreases items@.len() - k,
                {
                    let ghost pre = view.subrange(0, k as int);
                    assert(view.subrange(0, k + 1).drop_last() =~= pre);
                    assert(view.subrange(0, k + 1).last() == json_view(items@[k as int]));
                    match &items[k] {
                        JsonValue::Object(m) => {
                            proof {
                                lemma_object_view(*m);
                            }
                            let x = match PatchOperation::read_members(m) {
                                Ok(x) => x,
                                Err(e) => {
                                    proof {
                                        lemma_read_items_fail(view, k + 1, key@, patch_reader());
                                    }
                                    return Err(e);
                                },
                            };
                            let ghost before = out@;
                            out.push(x);
                            assert(patches_view(out@) =~= patches_view(before).push(
                                Json::Object(x.members()),
                            ));
                        },
                        _ => {
                            proof {
                                lemma_read_items_fail(view, k + 1, key@, patch_reader());
                            }
                            return Err(DecodeError::InvalidField(key.to_owned()));
                        },
                    }
                    k += 1;
                }
                assert(view.subrange(0, k as int) =~= view);
                Ok(out)
            },
            _ => Err(DecodeError::InvalidField(key.to_owned())),
        },
        None => Err(DecodeError::MissingField(key.to_owned())),
    }
}

// ----- payloads -----
/// A run began.
#[derive(Debug)]
pub struct RunStartedEvent {
    pub thread_id: String,
    pub run_id: String,
}

/// A run ended normally.
#[derive(Debug)]
pub struct RunFinishedEvent {
    pub thread_id: String,
    pub run_id: String,
}

/// A run was stopped before it ended.
#[derive(Debug)]
pub struct RunAbortedEvent {
    pub thread_id: String,
    pub run_id: String,
    pub reason: Option<String>,
}

/// A run failed.
#[derive(Debug)]
pub struct RunErrorEvent {
    pub thread_id: String,
    pub run_id: String,
    pub error: String,
    pub code: Option<String>,
}

/// A step of a run began.
#[derive(Debug)]
pub struct StepStartedEvent {
    pub thread_id: String,
    pub run_id: String,
    pub step_id: String,
    pub step_type: Option<String>,
}

/// A step of a run ended.
#[derive(Debug)]
pub struct StepFinishedEvent {
    pub thread_id: String,
    pub run_id: String,
    pub step_id: String,
}

/// A text message began.
#[derive(Debug)]
pub struct TextMessageStartEvent {
    pub message_id: String,
    pub role: Option<Role>,
}

/// More text of a message.
#[derive(Debug)]
pub struct TextMessageContentEvent {
    pub message_id: String,
    pub delta: String,
}

/// A piece of a message sent on its own.
#[derive(Debug)]
pub struct TextMessageChunkEvent {
    pub message_id: String,
    pub delta: String,
}

/// A text message ended.
#[derive(Debug)]
pub struct TextMessageEndEvent {
    pub message_id: String,
}

/// The agent began thinking.
#[derive(Debug)]
pub struct ThinkingStartEvent {
    pub thread_id: String,
    pub run_id: String,
}

/// The agent stopped thinking.
#[derive(Debug)]
pub struct ThinkingEndEvent {
    pub thread_id: String,
    pub run_id: String,
}

/// A message of thoughts began.
#[derive(Debug)]
pub struct ThinkingTextMessageStartEvent {
    pub message_id: String,
    pub role: Option<Role>,
}

/// More text of a message of thoughts.
#[derive(Debug)]
pub struct ThinkingTextMessageContentEvent {
    pub message_id: String,
    pub delta: String,
}

/// A message of thoughts ended.
#[derive(Debug)]
pub struct ThinkingTextMessageEndEvent {
    pub message_id: String,
}

/// A tool call began.
#[derive(Debug)]
pub struct ToolCallStartEvent {
    pub tool_call_id: String,
    pub tool_name: String,
    pub parent_message_id: Option<String>,
}

/// A piece of a tool call sent on its own.
#[derive(Debug)]
pub struct ToolCallChunkEvent {
    pub tool_call_id: String,
    pub delta: String,
}

/// More of the arguments of a tool call.
#[derive(Debug)]
pub struct ToolCallArgsEvent {
    pub tool_call_id: String,
    pub delta: String,
}

/// A tool call ended, with the call as resolved if known.
#[derive(Debug)]
pub struct ToolCallEndEvent {
    pub tool_call_id: String,
    pub tool_call: Option<ToolCall>,
}

/// The result of a tool call.
#[derive(Debug)]
pub struct ToolCallResultEvent {
    pub tool_result: ToolResult,
}

/// The whole conversation so far.
#[derive(Debug)]
pub struct MessagesSnapshotEvent {
    pub messages: Vec<Message>,
}

/// The whole state.
#[derive(Debug)]
pub struct StateSnapshotEvent {
    pub state: Vec<(String, JsonValue)>,
}

/// A patch of the state; its operations apply in order.
#[derive(Debug)]
pub struct StateDeltaEvent {
    pub delta: Vec<PatchOperation>,
}

/// An error outside any run.
#[derive(Debug)]
pub struct ErrorEvent {
    pub error: String,
    pub code: Option<String>,
    pub details: Option<JsonValue>,
}

/// An event of another source, passed through as it came.
#[derive(Debug)]
pub struct RawEvent {
    pub event: JsonValue,
}

/// An event defined by the application; its data members stand beside the envelope's.
#[derive(Debug)]
pub struct CustomEvent {
    pub event_type: String,
    pub data: Vec<(String, JsonValue)>,
}

/// The payload of an event; its variant is the event's kind.
#[derive(Debug)]
pub enum EventData {
    RunStarted(RunStartedEvent),
    RunFinished(RunFinishedEvent),
    RunAborted(RunAbortedEvent),
    RunError(RunErrorEvent),
    StepStarted(StepStartedEvent),
    StepFinished(StepFinishedEvent),
    TextMessageStart(TextMessageStartEvent),
    TextMessageContent(TextMessageContentEvent),
    TextMessageChunk(TextMessageChunkEvent),
    TextMessageEnd(TextMessageEndEvent),
    ThinkingStart(ThinkingStartEvent),
    ThinkingEnd(ThinkingEndEvent),
    ThinkingTextMessageStart(ThinkingTextMessageStartEvent),
    ThinkingTextMessageContent(ThinkingTextMessageContentEvent),
    ThinkingTextMessageEnd(ThinkingTextMessageEndEvent),
    ToolCallStart(ToolCallStartEvent),
    ToolCallChunk(ToolCallChunkEvent),
    ToolCallArgs(ToolCallArgsEvent),
    ToolCallEnd(ToolCallEndEvent),
    ToolCallResult(ToolCallResultEvent),
    MessagesSnapshot(MessagesSnapshotEvent),
    StateSnapshot(StateSnapshotEvent),
    StateDelta(StateDeltaEvent),
    Error(ErrorEvent),
    Raw(RawEvent),
    Custom(CustomEvent),
}

/// The kind of a payload.
pub open spec fn kind_of(d: EventData) -> EventType {
    match d {
        EventData::RunStarted(_) => EventType::RunStarted,
        EventData::RunFinished(_) => EventType::RunFinished,
        EventData::RunAborted(_) => EventType::RunAborted,
        EventData::RunError(_) => EventType::RunError,
        EventData::StepStarted(_) => EventType::StepStarted,
        EventData::StepFinished(_) => EventType::StepFinished,
        EventData::TextMessageStart(_) => EventType::TextMessageStart,
        EventData::TextMessageContent(_) => EventType::TextMessageContent,
        EventData::TextMessageChunk(_) => EventType::TextMessageChunk,
        EventData::TextMessageEnd(_) => EventType::TextMessageEnd,
        EventData::ThinkingStart(_) => EventType::ThinkingStart,
        EventData::ThinkingEnd(_) => EventType::ThinkingEnd,
        EventData::ThinkingTextMessageStart(_) => EventType::ThinkingTextMessageStart,
        EventData::ThinkingTextMessageContent(_) => EventType::ThinkingTextMessageContent,
        EventData::ThinkingTextMessageEnd(_) => EventType::ThinkingTextMessageEnd,
        EventData::ToolCallStart(_) => EventType::ToolCallStart,
        EventData::ToolCallChunk(_) => EventType::ToolCallChunk,
        EventData::ToolCallArgs(_) => EventType::ToolCallArgs,
        EventData::ToolCallEnd(_) => EventType::ToolCallEnd,
        EventData::ToolCallResult(_) => EventType::ToolCallResult,
        EventData::MessagesSnapshot(_) => EventType::MessagesSnapshot,
        EventData::StateSnapshot(_) => EventType::StateSnapshot,
        EventData::StateDelta(_) => EventType::StateDelta,
        EventData::Error(_) => EventType::Error,
        EventData::Raw(_) => EventType::Raw,
        EventData::Custom(_) => EventType::Custom,
    }
}

/// The members a payload is written as, after the envelope's.
pub open spec fn payload_members(d: EventData) -> Seq<Member> {
    match d {
        EventData::RunStarted(p) => text_member("thread_id"@, p.thread_id) + text_member("run_id"@, p.run_id),
        EventData::RunFinished(p) => text_member("thread_id"@, p.thread_id) + text_member("run_id"@, p.run_id),
        EventData::RunAborted(p) => text_member("thread_id"@, p.thread_id) + text_member("run_id"@, p.run_id) + opt_text_member("reason"@, p.reason),
        EventData::RunError(p) => text_member("thread_id"@, p.thread_id) + text_member("run_id"@, p.run_id) + text_member("error"@, p.error) + opt_text_member("code"@, p.code),
        EventData::StepStarted(p) => text_member("thread_id"@, p.thread_id) + text_member("run_id"@, p.run_id) + text_member("step_id"@, p.step_id) + opt_text_member("step_type"@, p.step_type),
        EventData::StepFinished(p) => text_member("thread_id"@, p.thread_id) + text_member("run_id"@, p.run_id) + text_member("step_id"@, p.step_id),
        EventData::TextMessageStart(p) => text_member("message_id"@, p.message_id) + opt_role_member("role"@, p.role),
        EventData::TextMessageContent(p) => text_member("message_id"@, p.message_id) + text_member("delta"@, p.delta),
        EventData::TextMessageChunk(p) => text_member("message_id"@, p.message_id) + text_member("delta"@, p.delta),
        EventData::TextMessageEnd(p) => text_member("message_id"@, p.message_id),
        EventData::ThinkingStart(p) => text_member("thread_id"@, p.thread_id) + text_member("run_id"@, p.run_id),
        EventData::ThinkingEnd(p) => text_member("thread_id"@, p.thread_id) + text_member("run_id"@, p.run_id),
        EventData::ThinkingTextMessageStart(p) => text_member("message_id"@, p.message_id) + opt_role_member("role"@, p.role),
        EventData::ThinkingTextMessageContent(p) => text_member("message_id"@, p.message_id) + text_member("delta"@, p.delta),
        EventData::ThinkingTextMessageEnd(p) => text_member("message_id"@, p.message_id),
        EventData::ToolCallStart(p) => text_member("tool_call_id"@, p.tool_call_id) + text_member("tool_name"@, p.tool_name) + opt_text_member("parent_message_id"@, p.parent_message_id),
        EventData::ToolCallChunk(p) => text_member("tool_call_id"@, p.tool_call_id) + text_member("delta"@, p.delta),
        EventData::ToolCallArgs(p) => text_member("tool_call_id"@, p.tool_call_id) + text_member("delta"@, p.delta),
        EventData::ToolCallEnd(p) => text_member("tool_call_id"@, p.tool_call_id) + opt_tool_call_member("tool_call"@, p.tool_call),
        EventData::ToolCallResult(p) => tool_result_member("tool_result"@, p.tool_result),
        EventData::MessagesSnapshot(p) => messages_member("messages"@, p.messages),
        EventData::StateSnapshot(p) => object_member("state"@, p.state),
        EventData::StateDelta(p) => patches_member("delta"@, p.delta),
        EventData::Error(p) => text_member("error"@, p.error) + opt_text_member("code"@, p.code) + opt_value_member("details"@, p.details),
        EventData::Raw(p) => value_member("event"@, p.event),
        EventData::Custom(p) => text_member("event_type"@, p.event_type) + members_view(p.data@),
    }
}

/// What a decoder keeps of the payload members of an object of the given kind.
pub open spec fn payload_read(k: EventType, es: Seq<Member>) -> Read {
    match k {
        EventType::RunStarted => both(text_field(es, "thread_id"@), text_field(es, "run_id"@)),
        EventType::RunFinished => both(text_field(es, "thread_id"@), text_field(es, "run_id"@)),
        EventType::RunAborted => both(both(text_field(es, "thread_id"@), text_field(es, "run_id"@)), opt_text_field(es, "reason"@)),
        EventType::RunError => both(both(both(text_field(es, "thread_id"@), text_field(es, "run_id"@)), text_field(es, "error"@)), opt_text_field(es, "code"@)),
        EventType::StepStarted => both(both(both(text_field(es, "thread_id"@), text_field(es, "run_id"@)), text_field(es, "step_id"@)), opt_text_field(es, "step_type"@)),
        EventType::StepFinished => both(both(text_field(es, "thread_id"@), text_field(es, "run_id"@)), text_field(es, "step_id"@)),
        EventType::TextMessageStart => both(text_field(es, "message_id"@), role_field(es, "role"@, false)),
        EventType::TextMessageContent => both(text_field(es, "message_id"@), text_field(es, "delta"@)),
        EventType::TextMessageChunk => both(text_field(es, "message_id"@), text_field(es, "delta"@)),
        EventType::TextMessageEnd => text_field(es, "message_id"@),
        EventType::ThinkingStart => both(text_field(es, "thread_id"@), text_field(es, "run_id"@)),
        EventType::ThinkingEnd => both(text_field(es, "thread_id"@), text_field(es, "run_id"@)),
        EventType::ThinkingTextMessageStart => both(text_field(es, "message_id"@), role_field(es, "role"@, false)),
        EventType::ThinkingTextMessageContent => both(text_field(es, "message_id"@), text_field(es, "delta"@)),
        EventType::ThinkingTextMessageEnd => text_field(es, "message_id"@),
        EventType::ToolCallStart => both(both(text_field(es, "tool_call_id"@), text_field(es, "tool_name"@)), opt_text_field(es, "parent_message_id"@)),
        EventType::ToolCallChunk => both(text_field(es, "tool_call_id"@), text_field(es, "delta"@)),
        EventType::ToolCallArgs => both(text_field(es, "tool_call_id"@), text_field(es, "delta"@)),
        EventType::ToolCallEnd => both(text_field(es, "tool_call_id"@), record_field(es, "tool_call"@, tool_call_reader(), false)),
        EventType::ToolCallResult => record_field(es, "tool_result"@, tool_result_reader(), true),
        EventType::MessagesSnapshot => list_field(es, "messages"@, message_reader(), true),
        EventType::StateSnapshot => object_field(es, "state"@, true),
        EventType::StateDelta => list_field(es, "delta"@, patch_reader(), true),
        EventType::Error => both(both(text_field(es, "error"@), opt_text_field(es, "code"@)), opt_value_field(es, "details"@)),
        EventType::Raw => value_field(es, "event"@),
        EventType::Custom => both(text_field(es, "event_type"@), Read::Ok(unreserved(es))),
    }
}

impl EventData {
    /// The kind of the payload.
    pub fn kind(&self) -> (r: EventType)
        ensures
            r == kind_of(*self),
    {
        match self {
            EventData::RunStarted(_) => EventType::RunStarted,
            EventData::RunFinished(_) => EventType::RunFinished,
            EventData::RunAborted(_) => EventType::RunAborted,
            EventData::RunError(_) => EventType::RunError,
            EventData::StepStarted(_) => EventType::StepStarted,
            EventData::StepFinished(_) => EventType::StepFinished,
            EventData::TextMessageStart(_) => EventType::TextMessageStart,
            EventData::TextMessageContent(_) => EventType::TextMessageContent,
            EventData::TextMessageChunk(_) => EventType::TextMessageChunk,
            EventData::TextMessageEnd(_) => EventType::TextMessageEnd,
            EventData::ThinkingStart(_) => EventType::ThinkingStart,
            EventData::ThinkingEnd(_) => EventType::ThinkingEnd,
            EventData::ThinkingTextMessageStart(_) => EventType::ThinkingTextMessageStart,
            EventData::ThinkingTextMessageContent(_) => EventType::ThinkingTextMessageContent,
            EventData::ThinkingTextMessageEnd(_) => EventType::ThinkingTextMessageEnd,
            EventData::ToolCallStart(_) => EventType::ToolCallStart,
            EventData::ToolCallChunk(_) => EventType::ToolCallChunk,
            EventData::ToolCallArgs(_) => EventType::ToolCallArgs,
            EventData::ToolCallEnd(_) => EventType::ToolCallEnd,
            EventData::ToolCallResult(_) => EventType::ToolCallResult,
            EventData::MessagesSnapshot(_) => EventType::MessagesSnapshot,
            EventData::StateSnapshot(_) => EventType::StateSnapshot,
            EventData::StateDelta(_) => EventType::StateDelta,
            EventData::Error(_) => EventType::Error,
            EventData::Raw(_) => EventType::Raw,
            EventData::Custom(_) => EventType::Custom,
        }
    }

    /// Appends the payload members.
    pub fn write_members(&self, out: &mut Vec<(String, JsonValue)>)
        ensures
            members_view(final(out)@) == members_view(old(out)@) + payload_members(*self),
    {
        let ghost start = members_view(out@);
        match self {
            EventData::RunStarted(p) => {
                push_text(out, "thread_id", &p.thread_id);
                push_text(out, "run_id", &p.run_id);
            },
            EventData::RunFinished(p) => {
                push_text(out, "thread_id", &p.thread_id);
                push_text(out, "run_id", &p.run_id);
            },
            EventData::RunAborted(p) => {
                push_text(out, "thread_id", &p.thread_id);
                push_text(out, "run_id", &p.run_id);
                push_opt_text(out, "reason", &p.reason);
            },
            EventData::RunError(p) => {
                push_text(out, "thread_id", &p.thread_id);
                push_text(out, "run_id", &p.run_id);
                push_text(out, "error", &p.error);
                push_opt_text(out, "code", &p.code);
            },
            EventData::StepStarted(p) => {
                push_text(out, "thread_id", &p.thread_id);
                push_text(out, "run_id", &p.run_id);
                push_text(out, "step_id", &p.step_id);
                push_opt_text(out, "step_type", &p.step_type);
            },
            EventData::StepFinished(p) => {
                push_text(out, "thread_id", &p.thread_id);
                push_text(out, "run_id", &p.run_id);
                push_text(out, "step_id", &p.step_id);
            },
            EventData::TextMessageStart(p) => {
                push_text(out, "message_id", &p.message_id);
                push_opt_role(out, "role", p.role);
            },
            EventData::TextMessageContent(p) => {
                push_text(out, "message_id", &p.message_id);
                push_text(out, "delta", &p.delta);
            },
            EventData::TextMessageChunk(p) => {
                push_text(out, "message_id", &p.message_id);
                push_text(out, "delta", &p.delta);
            },
            EventData::TextMessageEnd(p) => {
                push_text(out, "message_id", &p.message_id);
            },
            EventData::ThinkingStart(p) => {
                push_text(out, "thread_id", &p.thread_id);
                push_text(out, "run_id", &p.run_id);
            },
            EventData::ThinkingEnd(p) => {
                push_text(out, "thread_id", &p.thread_id);
                push_text(out, "run_id", &p.run_id);
            },
            EventData::ThinkingTextMessageStart(p) => {
                push_text(out, "message_id", &p.message_id);
                push_opt_role(out, "role", p.role);
            },
            EventData::ThinkingTextMessageContent(p) => {
                push_text(out, "message_id", &p.message_id);
                push_text(out, "delta", &p.delta);
            },
            EventData::ThinkingTextMessageEnd(p) => {
                push_text(out, "message_id", &p.message_id);
            },
            EventData::ToolCallStart(p) => {
                push_text(out, "tool_call_id", &p.tool_call_id);
                push_text(out, "tool_name", &p.tool_name);
                push_opt_text(out, "parent_message_id", &p.parent_message_id);
            },
            EventData::ToolCallChunk(p) => {
                push_text(out, "tool_call_id", &p.tool_call_id);
                push_text(out, "delta", &p.delta);
            },
            EventData::ToolCallArgs(p) => {
                push_text(out, "tool_call_id", &p.tool_call_id);
                push_text(out, "delta", &p.delta);
            },
            EventData::ToolCallEnd(p) => {
                push_text(out, "tool_call_id", &p.tool_call_id);
                push_opt_tool_call(out, "tool_call", &p.tool_call);
            },
            EventData::ToolCallResult(p) => {
                push_tool_result(out, "tool_result", &p.tool_result);
            },
            EventData::MessagesSnapshot(p) => {
                push_messages(out, "messages", &p.messages);
            },
            EventData::StateSnapshot(p) => {
                push_object(out, "state", &p.state);
            },
            EventData::StateDelta(p) => {
                push_patches(out, "delta", &p.delta);
            },
            EventData::Error(p) => {
                push_text(out, "error", &p.error);
                push_opt_text(out, "code", &p.code);
                push_opt_value(out, "details", &p.details);
            },
            EventData::Raw(p) => {
                push_value(out, "event", &p.event);
            },
            EventData::Custom(p) => {
                push_text(out, "event_type", &p.event_type);
                push_all(out, &p.data);
            },
        }
        assert(members_view(out@) =~= start + payload_members(*self));
    }

    /// Reads the payload of the given kind from the members of an object.
    pub fn read_members(k: EventType, es: &Vec<(String, JsonValue)>) -> (r: Result<EventData, DecodeError>)
        ensures
            match r {
                Ok(d) => kind_of(d) == k && payload_read(k, members_view(es@)) == Read::Ok(payload_members(d)),
                Err(e) => payload_read(k, members_view(es@)) == Read::Err(e@),
            },
    {
        match k {
            EventType::RunStarted => {
                let thread_id = read_text(es, "thread_id")?;
                let run_id = read_text(es, "run_id")?;
                Ok(EventData::RunStarted(RunStartedEvent { thread_id, run_id }))
            },
            EventType::RunFinished => {
                let thread_id = read_text(es, "thread_id")?;
                let run_id = read_text(es, "run_id")?;
                Ok(EventData::RunFinished(RunFinishedEvent { thread_id, run_id }))
            },
            EventType::RunAborted => {
                let thread_id = read_text(es, "thread_id")?;
                let run_id = read_text(es, "run_id")?;
                let reason = read_opt_text(es, "reason")?;
                Ok(EventData::RunAborted(RunAbortedEvent { thread_id, run_id, reason }))
            },
            EventType::RunError => {
                let thread_id = read_text(es, "thread_id")?;
                let run_id = read_text(es, "run_id")?;
                let error = read_text(es, "error")?;
                let code = read_opt_text(es, "code")?;
                Ok(EventData::RunError(RunErrorEvent { thread_id, run_id, error, code }))
            },
            EventType::StepStarted => {
                let thread_id = read_text(es, "thread_id")?;
                let run_id = read_text(es, "run_id")?;
                let step_id = read_text(es, "step_id")?;
                let step_type = read_opt_text(es, "step_type")?;
                Ok(EventData::StepStarted(StepStartedEvent { thread_id, run_id, step_id, step_type }))
            },
            EventType::StepFinished => {
                let thread_id = read_text(es, "thread_id")?;
                let run_id = read_text(es, "run_id")?;
                let step_id = read_text(es, "step_id")?;
                Ok(EventData::StepFinished(StepFinishedEvent { thread_id, run_id, step_id }))
            },
            EventType::TextMessageStart => {
                let message_id = read_text(es, "message_id")?;
                let role = read_role(es, "role", false)?;
                Ok(EventData::TextMessageStart(TextMessageStartEvent { message_id, role }))
            },
            EventType::TextMessageContent => {
                let message_id = read_text(es, "message_id")?;
                let delta = read_text(es, "delta")?;
                Ok(EventData::TextMessageContent(TextMessageContentEvent { message_id, delta }))
            },
            EventType::TextMessageChunk => {
                let message_id = read_text(es, "message_id")?;
                let delta = read_text(es, "delta")?;
                Ok(EventData::TextMessageChunk(TextMessageChunkEvent { message_id, delta }))
            },
            EventType::TextMessageEnd => {
                let message_id = read_text(es, "message_id")?;
                Ok(EventData::TextMessageEnd(TextMessageEndEvent { message_id }))
            },
            EventType::ThinkingStart => {
                let thread_id = read_text(es, "thread_id")?;
                let run_id = read_text(es, "run_id")?;
                Ok(EventData::ThinkingStart(ThinkingStartEvent { thread_id, run_id }))
            },
            EventType::ThinkingEnd => {
                let thread_id = read_text(es, "thread_id")?;
                let run_id = read_text(es, "run_id")?;
                Ok(EventData::ThinkingEnd(ThinkingEndEvent { thread_id, run_id }))
            },
            EventType::ThinkingTextMessageStart => {
                let message_id = read_text(es, "message_id")?;
                let role = read_role(es, "role", false)?;
                Ok(EventData::ThinkingTextMessageStart(ThinkingTextMessageStartEvent { message_id, role }))
            },
            EventType::ThinkingTextMessageContent => {
                let message_id = read_text(es, "message_id")?;
                let delta = read_text(es, "delta")?;
                Ok(EventData::ThinkingTextMessageContent(ThinkingTextMessageContentEvent { message_id, delta }))
            },
            EventType::ThinkingTextMessageEnd => {
                let message_id = read_text(es, "message_id")?;
                Ok(EventData::ThinkingTextMessageEnd(ThinkingTextMessageEndEvent { message_id }))
            },
            EventType::ToolCallStart => {
                let tool_call_id = read_text(es, "tool_call_id")?;
                let tool_name = read_text(es, "tool_name")?;
                let parent_message_id = read_opt_text(es, "parent_message_id")?;
                Ok(EventData::ToolCallStart(ToolCallStartEvent { tool_call_id, tool_name, parent_message_id }))
            },
            EventType::ToolCallChunk => {
                let tool_call_id = read_text(es, "tool_call_id")?;
                let delta = read_text(es, "delta")?;
                Ok(EventData::ToolCallChunk(ToolCallChunkEvent { tool_call_id, delta }))
            },
            EventType::ToolCallArgs => {
                let tool_call_id = read_text(es, "tool_call_id")?;
                let delta = read_text(es, "delta")?;
                Ok(EventData::ToolCallArgs(ToolCallArgsEvent { tool_call_id, delta }))
            },
            EventType::ToolCallEnd => {
                let tool_call_id = read_text(es, "tool_call_id")?;
                let tool_call = read_opt_tool_call(es, "tool_call")?;
                Ok(EventData::ToolCallEnd(ToolCallEndEvent { tool_call_id, tool_call }))
            },
            EventType::ToolCallResult => {
                let tool_result = read_tool_result(es, "tool_result")?;
                Ok(EventData::ToolCallResult(ToolCallResultEvent { tool_result }))
            },
            EventType::MessagesSnapshot => {
                let messages = read_messages(es, "messages")?;
                Ok(EventData::MessagesSnapshot(MessagesSnapshotEvent { messages }))
            },
            EventType::StateSnapshot => {
                let state = read_state(es, "state")?;
                Ok(EventData::StateSnapshot(StateSnapshotEvent { state }))
            },
            EventType::StateDelta => {
                let delta = read_patches(es, "delta")?;
                Ok(EventData::StateDelta(StateDeltaEvent { delta }))
            },
            EventType::Error => {
                let error = read_text(es, "error")?;
                let code = read_opt_text(es, "code")?;
                let details = read_opt_value(es, "details");
                Ok(EventData::Error(ErrorEvent { error, code, details }))
            },
            EventType::Raw => {
                let event = read_value(es, "event")?;
                Ok(EventData::Raw(RawEvent { event }))
            },
            EventType::Custom => {
                let event_type = read_text(es, "event_type")?;
                let data = unreserved_members(es);
                Ok(EventData::Custom(CustomEvent { event_type, data }))
            },
        }
    }
}


// ----- the envelope -----
/// An event: the envelope shared by every kind and the payload of its kind. The kind is
/// the payload's variant, so the two cannot disagree.
#[derive(Debug)]
pub struct BaseEvent {
    pub timestamp: Option<Timestamp>,
    pub raw_event: Option<JsonValue>,
    pub data: EventData,
}

/// The members an event is written as: its kind under `type`, the envelope's optional
/// members when present, then the payload's.
pub open spec fn event_members(e: BaseEvent) -> Seq<Member> {
    seq![("type"@, Json::Str(kind_name(kind_of(e.data))))] + time_member("timestamp"@, e.timestamp)
        + opt_value_member("raw_event"@, e.raw_event) + payload_members(e.data)
}

impl View for BaseEvent {
    type V = Json;

    /// The JSON object the event is written as.
    open spec fn view(&self) -> Json {
        Json::Object(event_members(*self))
    }
}

/// What a decoder keeps of a JSON document: the members of the event it stands for, or
/// the first failure.
pub open spec fn event_read(j: Json) -> Read {
    match j {
        Json::Object(es) => match field_of(es, "type"@) {
            Some(Json::Str(name)) => match kind_of_name(name) {
                Some(k) => both(
                    both(
                        both(
                            Read::Ok(seq![("type"@, Json::Str(name))]),
                            time_field(es, "timestamp"@),
                        ),
                        opt_value_field(es, "raw_event"@),
                    ),
                    payload_read(k, es),
                ),
                None => Err(DecodeFault::UnknownEventType(name)),
            },
            Some(_) => Err(DecodeFault::InvalidField("type"@)),
            None => Err(DecodeFault::MissingField("type"@)),
        },
        _ => Err(DecodeFault::NotAnObject),
    }
}

/// Whether the event can be written so that it reads back: a custom event's data uses no
/// key of the envelope or `event_type`.
pub open spec fn fits_wire(e: BaseEvent) -> bool {
    e.data matches EventData::Custom(p) ==> forall|i: int|
        0 <= i < p.data@.len() ==> !is_reserved(#[trigger] p.data@[i].0@)
}

/// Whether every timestamp the event holds is one that chrono reads; it holds of every
/// timestamp built by `Timestamp`.
pub open spec fn timestamps_readable(e: BaseEvent) -> bool {
    &&& (e.timestamp matches Some(t) ==> is_rfc3339(t.text()))
    &&& (e.data matches EventData::MessagesSnapshot(p) ==> forall|i: int|
        0 <= i < p.messages@.len() ==> (#[trigger] p.messages@[i]).readable())
}

impl BaseEvent {
    /// The kind of the event.
    pub fn event_type(&self) -> (r: EventType)
        ensures
            r == kind_of(self.data),
    {
        self.data.kind()
    }

    /// The JSON object the event is written as.
    pub fn to_json(&self) -> (r: JsonValue)
        ensures
            r@ == self@,
    {
        let mut out: Vec<(String, JsonValue)> = Vec::new();
        let ghost start = members_view(out@);
        assert(start =~= Seq::<Member>::empty());
        let k = self.data.kind();
        push_member(&mut out, "type", JsonValue::Str(k.as_str().to_owned()));
        push_time(&mut out, "timestamp", &self.timestamp);
        push_opt_value(&mut out, "raw_event", &self.raw_event);
        self.data.write_members(&mut out);
        assert(members_view(out@) =~= event_members(*self));
        proof {
            lemma_object_view(out);
        }
        JsonValue::Object(out)
    }

    /// The event a JSON document stands for.
    pub fn from_json(v: &JsonValue) -> (r: Result<BaseEvent, DecodeError>)
        ensures
            match r {
                Ok(e) => event_read(v@) == Read::Ok(event_members(e)),
                Err(x) => event_read(v@) == Read::Err(x@),
            },
    {
        match v {
            JsonValue::Object(es) => {
                proof {
                    lemma_object_view(*es);
                }
                match find_member(es, "type") {
                    None => Err(DecodeError::MissingField("type".to_owned())),
                    Some(i) => match &es[i].1 {
                        JsonValue::Str(name) => match EventType::from_name(name.as_str()) {
                            None => Err(DecodeError::UnknownEventType(name.clone())),
                            Some(k) => {
                                let timestamp = read_time(es, "timestamp")?;
                                let raw_event = read_opt_value(es, "raw_event");
                                let data = EventData::read_members(k, es)?;
                                let e = BaseEvent { timestamp, raw_event, data };
                                assert(event_members(e) =~= seq![("type"@, Json::Str(name@))]
                                    + time_member("timestamp"@, timestamp) + opt_value_member(
                                    "raw_event"@,
                                    raw_event,
                                ) + payload_members(data));
                                Ok(e)
                            },
                        },
                        _ => Err(DecodeError::InvalidField("type".to_owned())),
                    },
                }
            },
            _ => Err(DecodeError::NotAnObject),
        }
    }

    /// A `RUN_STARTED` event stamped with the given time.
    pub fn run_started_at(thread_id: String, run_id: String, now: Timestamp) -> (r: BaseEvent)
        ensures
            r.timestamp == Some(now),
            r.raw_event is None,
            r.data == EventData::RunStarted(RunStartedEvent { thread_id, run_id }),
    {
        BaseEvent {
            timestamp: Some(now),
            raw_event: None,
            data: EventData::RunStarted(RunStartedEvent { thread_id, run_id }),
        }
    }

    /// A `RUN_STARTED` event stamped with the current time.
    pub fn run_started(thread_id: String, run_id: String) -> (r: BaseEvent)
        ensures
            r.timestamp is Some,
            r.raw_event is None,
            r.data == EventData::RunStarted(RunStartedEvent { thread_id, run_id }),
    {
        BaseEvent::run_started_at(thread_id, run_id, Timestamp::now())
    }

    /// A `RUN_FINISHED` event stamped with the given time.
    pub fn run_finished_at(thread_id: String, run_id: String, now: Timestamp) -> (r: BaseEvent)
        ensures
            r.timestamp == Some(now),
            r.raw_event is None,
            r.data == EventData::RunFinished(RunFinishedEvent { thread_id, run_id }),
    {
        BaseEvent {
            timestamp: Some(now),
            raw_event: None,
            data: EventData::RunFinished(RunFinishedEvent { thread_id, run_id }),
        }
    }

    /// A `RUN_FINISHED` event stamped with the current time.
    pub fn run_finished(thread_id: String, run_id: String) -> (r: BaseEvent)
        ensures
            r.timestamp is Some,
            r.raw_event is None,
            r.data == EventData::RunFinished(RunFinishedEvent { thread_id, run_id }),
    {
        BaseEvent::run_finished_at(thread_id, run_id, Timestamp::now())
    }

    /// A `TEXT_MESSAGE_CONTENT` event stamped with the given time.
    pub fn text_message_content_at(message_id: String, delta: String, now: Timestamp) -> (r: BaseEvent)
        ensures
            r.timestamp == Some(now),
            r.raw_event is None,
            r.data == EventData::TextMessageContent(TextMessageContentEvent { message_id, delta }),
    {
        BaseEvent {
            timestamp: Some(now),
            raw_event: None,
            data: EventData::TextMessageContent(TextMessageContentEvent { message_id, delta }),
        }
    }

    /// A `TEXT_MESSAGE_CONTENT` event stamped with the current time.
    pub fn text_message_content(message_id: String, delta: String) -> (r: BaseEvent)
        ensures
            r.timestamp is Some,
            r.raw_event is None,
            r.data == EventData::TextMessageContent(TextMessageContentEvent { message_id, delta }),
    {
        BaseEvent::text_message_content_at(message_id, delta, Timestamp::now())
    }

    /// A `TEXT_MESSAGE_START` event stamped with the given time.
    pub fn text_message_start_at(message_id: String, role: Option<Role>, now: Timestamp) -> (r: BaseEvent)
        ensures
            r.timestamp == Some(now),
            r.raw_event is None,
            r.data == EventData::TextMessageStart(TextMessageStartEvent { message_id, role }),
    {
        BaseEvent {
            timestamp: Some(now),
            raw_event: None,
            data: EventData::TextMessageStart(TextMessageStartEvent { message_id, role }),
        }
    }

    /// A `TEXT_MESSAGE_START` event stamped with the current time.
    pub fn text_message_start(message_id: String, role: Option<Role>) -> (r: BaseEvent)
        ensures
            r.timestamp is Some,
            r.raw_event is None,
            r.data == EventData::TextMessageStart(TextMessageStartEvent { message_id, role }),
    {
        BaseEvent::text_message_start_at(message_id, role, Timestamp::now())
    }

    /// A `TEXT_MESSAGE_END` event stamped with the given time.
    pub fn text_message_end_at(message_id: String, now: Timestamp) -> (r: BaseEvent)
        ensures
            r.timestamp == Some(now),
            r.raw_event is None,
            r.data == EventData::TextMessageEnd(TextMessageEndEvent { message_id }),
    {
        BaseEvent {
            timestamp: Some(now),
            raw_event: None,
            data: EventData::TextMessageEnd(TextMessageEndEvent { message_id }),
        }
    }

    /// A `TEXT_MESSAGE_END` event stamped with the current time.
    pub fn text_message_end(message_id: String) -> (r: BaseEvent)
        ensures
            r.timestamp is Some,
            r.raw_event is None,
            r.data == EventData::TextMessageEnd(TextMessageEndEvent { message_id }),
    {
        BaseEvent::text_message_end_at(message_id, Timestamp::now())
    }

    /// An `ERROR` event stamped with the given time.
    pub fn error_at(error: String, code: Option<String>, now: Timestamp) -> (r: BaseEvent)
        ensures
            r.timestamp == Some(now),
            r.raw_event is None,
            r.data == EventData::Error(ErrorEvent { error, code, details: None }),
    {
        BaseEvent {
            timestamp: Some(now),
            raw_event: None,
            data: EventData::Error(ErrorEvent { error, code, details: None }),
        }
    }

    /// An `ERROR` event stamped with the current time.
    pub fn error(error: String, code: Option<String>) -> (r: BaseEvent)
        ensures
            r.timestamp is Some,
            r.raw_event is None,
            r.data == EventData::Error(ErrorEvent { error, code, details: None }),
    {
        BaseEvent::error_at(error, code, Timestamp::now())
    }

    /// Whether a custom event's data keeps clear of the envelope's keys and `event_type`.
    pub fn fits_wire(&self) -> (r: bool)
        ensures
            r == fits_wire(*self),
    {
        match &self.data {
            EventData::Custom(p) => {
                let mut i: usize = 0;
                while i < p.data.len()
                    invariant
                        self.data == EventData::Custom(*p),
                        i <= p.data@.len(),
                        forall|j: int| 0 <= j < i ==> !is_reserved(#[trigger] p.data@[j].0@),
                    decreases p.data@.len() - i,
                {
                    let k = p.data[i].0.as_str();
                    if same_text(k, "type") || same_text(k, "timestamp") || same_text(
                        k,
                        "raw_event",
                    ) || same_text(k, "event_type") {
                        assert(is_reserved(p.data@[i as int].0@));
                        assert(self.data->Custom_0.data@[i as int] == p.data@[i as int]);
                        assert(!fits_wire(*self));
                        return false;
                    }
                    i += 1;
                }
                true
            },
            _ => true,
        }
    }
}


// ----- what holds of every event -----
/// The keys events are written with, and which of them differ.
pub proof fn lemma_event_keys_distinct()
    ensures
        "type"@ != "thread_id"@,
        "type"@ != "run_id"@,
        "type"@ != "reason"@,
        "type"@ != "error"@,
        "type"@ != "code"@,
        "type"@ != "step_id"@,
        "type"@ != "step_type"@,
        "type"@ != "message_id"@,
        "type"@ != "role"@,
        "type"@ != "delta"@,
        "type"@ != "tool_call_id"@,
        "type"@ != "tool_name"@,
        "type"@ != "parent_message_id"@,
        "type"@ != "tool_call"@,
        "type"@ != "tool_result"@,
        "type"@ != "messages"@,
        "type"@ != "state"@,
        "type"@ != "details"@,
        "type"@ != "event"@,
        "type"@ != "event_type"@,
        "timestamp"@ != "thread_id"@,
        "timestamp"@ != "run_id"@,
        "timestamp"@ != "reason"@,
        "timestamp"@ != "error"@,
        "timestamp"@ != "code"@,
        "timestamp"@ != "step_id"@,
        "timestamp"@ != "step_type"@,
        "timestamp"@ != "message_id"@,
        "timestamp"@ != "role"@,
        "timestamp"@ != "delta"@,
        "timestamp"@ != "tool_call_id"@,
        "timestamp"@ != "tool_name"@,
        "timestamp"@ != "parent_message_id"@,
        "timestamp"@ != "tool_call"@,
        "timestamp"@ != "tool_result"@,
        "timestamp"@ != "messages"@,
        "timestamp"@ != "state"@,
        "timestamp"@ != "details"@,
        "timestamp"@ != "event"@,
        "timestamp"@ != "event_type"@,
        "raw_event"@ != "thread_id"@,
        "raw_event"@ != "run_id"@,
        "raw_event"@ != "reason"@,
        "raw_event"@ != "error"@,
        "raw_event"@ != "code"@,
        "raw_event"@ != "step_id"@,
        "raw_event"@ != "step_type"@,
        "raw_event"@ != "message_id"@,
        "raw_event"@ != "role"@,
        "raw_event"@ != "delta"@,
        "raw_event"@ != "tool_call_id"@,
        "raw_event"@ != "tool_name"@,
        "raw_event"@ != "parent_message_id"@,
        "raw_event"@ != "tool_call"@,
        "raw_event"@ != "tool_result"@,
        "raw_event"@ != "messages"@,
        "raw_event"@ != "state"@,
        "raw_event"@ != "details"@,
        "raw_event"@ != "event"@,
        "raw_event"@ != "event_type"@,
        "run_id"@ != "reason"@,
        "thread_id"@ != "step_type"@,
        "thread_id"@ != "run_id"@,
        "thread_id"@ != "step_id"@,
        "thread_id"@ != "error"@,
        "thread_id"@ != "code"@,
        "thread_id"@ != "reason"@,
        "run_id"@ != "step_id"@,
        "run_id"@ != "step_type"@,
        "run_id"@ != "error"@,
        "run_id"@ != "code"@,
        "error"@ != "code"@,
        "step_id"@ != "step_type"@,
        "message_id"@ != "role"@,
        "message_id"@ != "delta"@,
        "tool_call_id"@ != "tool_name"@,
        "tool_call_id"@ != "parent_message_id"@,
        "tool_name"@ != "parent_message_id"@,
        "tool_call_id"@ != "delta"@,
        "tool_call_id"@ != "tool_call"@,
        "error"@ != "details"@,
        "code"@ != "details"@,
        "type"@ != "timestamp"@,
        "type"@ != "raw_event"@,
        "timestamp"@ != "raw_event"@,
{
    reveal_strlit("type");
    reveal_strlit("timestamp");
    reveal_strlit("raw_event");
    reveal_strlit("thread_id");
    reveal_strlit("run_id");
    reveal_strlit("reason");
    reveal_strlit("error");
    reveal_strlit("code");
    reveal_strlit("step_id");
    reveal_strlit("step_type");
    reveal_strlit("message_id");
    reveal_strlit("role");
    reveal_strlit("delta");
    reveal_strlit("tool_call_id");
    reveal_strlit("tool_name");
    reveal_strlit("parent_message_id");
    reveal_strlit("tool_call");
    reveal_strlit("tool_result");
    reveal_strlit("messages");
    reveal_strlit("state");
    reveal_strlit("details");
    reveal_strlit("event");
    reveal_strlit("event_type");
    assert("type"@.len() == 4);
    assert("timestamp"@.len() == 9);
    assert("raw_event"@.len() == 9);
    assert("thread_id"@.len() == 9);
    assert("run_id"@.len() == 6);
    assert("reason"@.len() == 6);
    assert("error"@.len() == 5);
    assert("code"@.len() == 4);
    assert("step_id"@.len() == 7);
    assert("step_type"@.len() == 9);
    assert("message_id"@.len() == 10);
    assert("role"@.len() == 4);
    assert("delta"@.len() == 5);
    assert("tool_call_id"@.len() == 12);
    assert("tool_name"@.len() == 9);
    assert("parent_message_id"@.len() == 17);
    assert("tool_call"@.len() == 9);
    assert("tool_result"@.len() == 11);
    assert("messages"@.len() == 8);
    assert("state"@.len() == 5);
    assert("details"@.len() == 7);
    assert("event"@.len() == 5);
    assert("event_type"@.len() == 10);
    assert("type"@[0] != "code"@[0]);
    assert("type"@[0] != "role"@[0]);
    assert("timestamp"@[1] != "thread_id"@[1]);
    assert("timestamp"@[0] != "step_type"@[0]);
    assert("timestamp"@[1] != "tool_name"@[1]);
    assert("timestamp"@[1] != "tool_call"@[1]);
    assert("raw_event"@[0] != "thread_id"@[0]);
    assert("raw_event"@[0] != "step_type"@[0]);
    assert("raw_event"@[0] != "tool_name"@[0]);
    assert("raw_event"@[0] != "tool_call"@[0]);
    assert("run_id"@[1] != "reason"@[1]);
    assert("thread_id"@[0] != "step_type"@[0]);
    assert("timestamp"@[0] != "raw_event"@[0]);
}

/// The members of an event's envelope.
pub open spec fn envelope_members(e: BaseEvent) -> Seq<Member> {
    seq![("type"@, Json::Str(kind_name(kind_of(e.data))))] + time_member("timestamp"@, e.timestamp)
        + opt_value_member("raw_event"@, e.raw_event)
}

/// What the payload of an event needs for the event to read back: its members read back
/// after the envelope's, and none of them uses an envelope key.
pub open spec fn payload_reads_back(e: BaseEvent) -> bool {
    &&& payload_read(kind_of(e.data), envelope_members(e) + payload_members(e.data)) == Read::Ok(
        payload_members(e.data),
    )
    &&& field_of(payload_members(e.data), "type"@) is None
    &&& field_of(payload_members(e.data), "timestamp"@) is None
    &&& field_of(payload_members(e.data), "raw_event"@) is None
}

proof fn lemma_envelope_reads_back(e: BaseEvent)
    requires
        payload_reads_back(e),
        e.timestamp matches Some(t) ==> is_rfc3339(t.text()),
    ensures
        event_read(e@) == Read::Ok(event_members(e)),
{
    lemma_event_keys_distinct();
    let k = kind_of(e.data);
    lemma_kind_of_own_name(k);
    let es = event_members(e);
    assert(es =~= envelope_members(e) + payload_members(e.data));
}

proof fn lemma_run_started_reads_back(e: BaseEvent)
    requires
        e.data is RunStarted,
    ensures
        payload_reads_back(e),
{
    lemma_event_keys_distinct();
}

proof fn lemma_run_finished_reads_back(e: BaseEvent)
    requires
        e.data is RunFinished,
    ensures
        payload_reads_back(e),
{
    lemma_event_keys_distinct();
}

proof fn lemma_run_aborted_reads_back(e: BaseEvent)
    requires
        e.data is RunAborted,
    ensures
        payload_reads_back(e),
{
    lemma_event_keys_distinct();
}

proof fn lemma_run_error_reads_back(e: BaseEvent)
    requires
        e.data is RunError,
    ensures
        payload_reads_back(e),
{
    lemma_event_keys_distinct();
}

proof fn lemma_step_started_reads_back(e: BaseEvent)
    requires
        e.data is StepStarted,
    ensures
        payload_reads_back(e),
{
    lemma_event_keys_distinct();
}

proof fn lemma_step_finished_reads_back(e: BaseEvent)
    requires
        e.data is StepFinished,
    ensures
        payload_reads_back(e),
{
    lemma_event_keys_distinct();
}

proof fn lemma_text_message_start_reads_back(e: BaseEvent)
    requires
        e.data is TextMessageStart,
    ensures
        payload_reads_back(e),
{
    lemma_event_keys_distinct();
}

proof fn lemma_text_message_content_reads_back(e: BaseEvent)
    requires
        e.data is TextMessageContent,
    ensures
        payload_reads_back(e),
{
    lemma_event_keys_distinct();
}

proof fn lemma_text_message_chunk_reads_back(e: BaseEvent)
    requires
        e.data is TextMessageChunk,
    ensures
        payload_reads_back(e),
{
    lemma_event_keys_distinct();
}

proof fn lemma_text_message_end_reads_back(e: BaseEvent)
    requires
        e.data is TextMessageEnd,
    ensures
        payload_reads_back(e),
{
    lemma_event_keys_distinct();
}

proof fn lemma_thinking_start_reads_back(e: BaseEvent)
    requires
        e.data is ThinkingStart,
    ensures
        payload_reads_back(e),
{
    lemma_event_keys_distinct();
}

proof fn lemma_thinking_end_reads_back(e: BaseEvent)
    requires
        e.data is ThinkingEnd,
    ensures
        payload_reads_back(e),
{
    lemma_event_keys_distinct();
}

proof fn lemma_thinking_text_message_start_reads_back(e: BaseEvent)
    requires
        e.data is ThinkingTextMessageStart,
    ensures
        payload_reads_back(e),
{
    lemma_event_keys_distinct();
}

proof fn lemma_thinking_text_message_content_reads_back(e: BaseEvent)
    requires
        e.data is ThinkingTextMessageContent,
    ensures
        payload_reads_back(e),
{
    lemma_event_keys_distinct();
}

proof fn lemma_thinking_text_message_end_reads_back(e: BaseEvent)
    requires
        e.data is ThinkingTextMessageEnd,
    ensures
        payload_reads_back(e),
{
    lemma_event_keys_distinct();
}

proof fn lemma_tool_call_start_reads_back(e: BaseEvent)
    requires
        e.data is ToolCallStart,
    ensures
        payload_reads_back(e),
{
    lemma_event_keys_distinct();
}

proof fn lemma_tool_call_chunk_reads_back(e: BaseEvent)
    requires
        e.data is ToolCallChunk,
    ensures
        payload_reads_back(e),
{
    lemma_event_keys_distinct();
}

proof fn lemma_tool_call_args_reads_back(e: BaseEvent)
    requires
        e.data is ToolCallArgs,
    ensures
        payload_reads_back(e),
{
    lemma_event_keys_distinct();
}

proof fn lemma_tool_call_end_reads_back(e: BaseEvent)
    requires
        e.data is ToolCallEnd,
    ensures
        payload_reads_back(e),
{
    lemma_event_keys_distinct();
    if let EventData::ToolCallEnd(p) = e.data {
        if let Some(t) = p.tool_call {
            t.lemma_read_back(Seq::empty());
            assert(Seq::<Member>::empty() + t.members() =~= t.members());
        }
    }
}

proof fn lemma_tool_call_result_reads_back(e: BaseEvent)
    requires
        e.data is ToolCallResult,
    ensures
        payload_reads_back(e),
{
    lemma_event_keys_distinct();
    if let EventData::ToolCallResult(p) = e.data {
        p.tool_result.lemma_read_back(Seq::empty());
        assert(Seq::<Member>::empty() + p.tool_result.members() =~= p.tool_result.members());
    }
}

proof fn lemma_messages_snapshot_reads_back(e: BaseEvent)
    requires
        e.data is MessagesSnapshot,
        timestamps_readable(e),
    ensures
        payload_reads_back(e),
{
    lemma_event_keys_distinct();
    if let EventData::MessagesSnapshot(p) = e.data {
        let items = messages_view(p.messages@);
        assert forall|i: int| 0 <= i < items.len() implies (#[trigger] items[i]) is Object
            && message_reader()(items[i]->Object_0) == Read::Ok(items[i]->Object_0) by {
            p.messages@[i].lemma_read_back();
        }
        lemma_read_items_back(items, "messages"@, message_reader());
    }
}

proof fn lemma_state_snapshot_reads_back(e: BaseEvent)
    requires
        e.data is StateSnapshot,
    ensures
        payload_reads_back(e),
{
    lemma_event_keys_distinct();
}

proof fn lemma_state_delta_reads_back(e: BaseEvent)
    requires
        e.data is StateDelta,
    ensures
        payload_reads_back(e),
{
    lemma_event_keys_distinct();
    if let EventData::StateDelta(p) = e.data {
        let items = patches_view(p.delta@);
        assert forall|i: int| 0 <= i < items.len() implies (#[trigger] items[i]) is Object
            && patch_reader()(items[i]->Object_0) == Read::Ok(items[i]->Object_0) by {
            p.delta@[i].lemma_read_back(Seq::empty());
            assert(Seq::<Member>::empty() + p.delta@[i].members() =~= p.delta@[i].members());
        }
        lemma_read_items_back(items, "delta"@, patch_reader());
    }
}

proof fn lemma_error_reads_back(e: BaseEvent)
    requires
        e.data is Error,
    ensures
        payload_reads_back(e),
{
    lemma_event_keys_distinct();
}

proof fn lemma_raw_reads_back(e: BaseEvent)
    requires
        e.data is Raw,
    ensures
        payload_reads_back(e),
{
    lemma_event_keys_distinct();
}

proof fn lemma_custom_reads_back(e: BaseEvent)
    requires
        e.data is Custom,
        fits_wire(e),
    ensures
        payload_reads_back(e),
{
    lemma_event_keys_distinct();
    if let EventData::Custom(p) = e.data {
        let envelope = envelope_members(e);
        let name = text_member("event_type"@, p.event_type);
        let data = members_view(p.data@);
        assert(envelope + payload_members(e.data) =~= (envelope + name) + data);
        lemma_unreserved_concat(envelope + name, data);
        lemma_unreserved_concat(envelope, name);
        assert forall|i: int| 0 <= i < data.len() implies !is_reserved(#[trigger] data[i].0) by {
            assert(data[i].0 == p.data@[i].0@);
        }
        lemma_unreserved_keeps(data);
        reveal_with_fuel(unreserved, 4);
        assert(unreserved(name) == Seq::<Member>::empty());
        assert(unreserved(envelope) == Seq::<Member>::empty());
        assert(Seq::<Member>::empty() + Seq::<Member>::empty() + data =~= data);
        assert forall|i: int| 0 <= i < data.len() implies (#[trigger] data[i]).0 != "type"@ by {}
        assert forall|i: int| 0 <= i < data.len() implies (#[trigger] data[i]).0 != "timestamp"@ by {}
        assert forall|i: int| 0 <= i < data.len() implies (#[trigger] data[i]).0 != "raw_event"@ by {}
        lemma_field_of_none(data, "type"@);
        lemma_field_of_none(data, "timestamp"@);
        lemma_field_of_none(data, "raw_event"@);
    }
}

/// Decoding the JSON object an event is written as gives back that event: an event whose
/// members are the same. This holds of every event that `fits_wire` and whose timestamps
/// chrono reads; the encoder refuses the events that do not fit.
pub proof fn lemma_event_round_trip(e: BaseEvent)
    requires
        fits_wire(e),
        timestamps_readable(e),
    ensures
        event_read(e@) == Read::Ok(event_members(e)),
{
    match e.data {

        EventData::RunStarted(_) => lemma_run_started_reads_back(e),
        EventData::RunFinished(_) => lemma_run_finished_reads_back(e),
        EventData::RunAborted(_) => lemma_run_aborted_reads_back(e),
        EventData::RunError(_) => lemma_run_error_reads_back(e),
        EventData::StepStarted(_) => lemma_step_started_reads_back(e),
        EventData::StepFinished(_) => lemma_step_finished_reads_back(e),
        EventData::TextMessageStart(_) => lemma_text_message_start_reads_back(e),
        EventData::TextMessageContent(_) => lemma_text_message_content_reads_back(e),
        EventData::TextMessageChunk(_) => lemma_text_message_chunk_reads_back(e),
        EventData::TextMessageEnd(_) => lemma_text_message_end_reads_back(e),
        EventData::ThinkingStart(_) => lemma_thinking_start_reads_back(e),
        EventData::ThinkingEnd(_) => lemma_thinking_end_reads_back(e),
        EventData::ThinkingTextMessageStart(_) => lemma_thinking_text_message_start_reads_back(e),
        EventData::ThinkingTextMessageContent(_) => lemma_thinking_text_message_content_reads_back(e),
        EventData::ThinkingTextMessageEnd(_) => lemma_thinking_text_message_end_reads_back(e),
        EventData::ToolCallStart(_) => lemma_tool_call_start_reads_back(e),
        EventData::ToolCallChunk(_) => lemma_tool_call_chunk_reads_back(e),
        EventData::ToolCallArgs(_) => lemma_tool_call_args_reads_back(e),
        EventData::ToolCallEnd(_) => lemma_tool_call_end_reads_back(e),
        EventData::ToolCallResult(_) => lemma_tool_call_result_reads_back(e),
        EventData::MessagesSnapshot(_) => lemma_messages_snapshot_reads_back(e),
        EventData::StateSnapshot(_) => lemma_state_snapshot_reads_back(e),
        EventData::StateDelta(_) => lemma_state_delta_reads_back(e),
        EventData::Error(_) => lemma_error_reads_back(e),
        EventData::Raw(_) => lemma_raw_reads_back(e),
        EventData::Custom(_) => lemma_custom_reads_back(e),
    }
    lemma_envelope_reads_back(e);
}

/// A `type` naming no kind is refused as unknown, not read as some default kind.
pub proof fn lemma_unknown_kind_rejected(es: Seq<Member>, name: Seq<char>)
    requires
        field_of(es, "type"@) == Some(Json::Str(name)),
        forall|k: EventType| kind_name(k) != name,
    ensures
        event_read(Json::Object(es)) == Read::Err(DecodeFault::UnknownEventType(name)),
{
}

/// An event without a timestamp is written with no `timestamp` member at all.
pub proof fn lemma_absent_timestamp_omitted(e: BaseEvent)
    requires
        e.timestamp is None,
        fits_wire(e),
    ensures
        forall|i: int| 0 <= i < event_members(e).len() ==> (#[trigger] event_members(e)[i]).0
            != "timestamp"@,
{
    lemma_event_keys_distinct();
    let k = kind_of(e.data);
    let envelope = seq![("type"@, Json::Str(kind_name(k)))] + time_member("timestamp"@, e.timestamp)
        + opt_value_member("raw_event"@, e.raw_event);
    let es = event_members(e);
    assert(es =~= envelope + payload_members(e.data));
    if let EventData::Custom(p) = e.data {
        let data = members_view(p.data@);
        assert(es =~= (envelope + text_member("event_type"@, p.event_type)) + data);
        assert forall|i: int| 0 <= i < data.len() implies (#[trigger] data[i]).0 != "timestamp"@ by {
            assert(data[i].0 == p.data@[i].0@);
        }
        lemma_field_of_none(data, "timestamp"@);
    }
    lemma_field_of_none(es, "timestamp"@);
}

} // verus!
