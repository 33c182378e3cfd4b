//! The closed set of event kinds and their wire names.
use vstd::prelude::*;

use crate::json::same_text;

verus! {

/// Event kinds of the protocol.
#[derive(Debug, Clone, Copy, PartialEq, Eq, Structural)]
pub enum EventType {
    RunStarted,
    RunFinished,
    RunAborted,
    RunError,
    StepStarted,
    StepFinished,
    TextMessageStart,
    TextMessageContent,
    TextMessageChunk,
    TextMessageEnd,
    ThinkingStart,
    ThinkingEnd,
    ThinkingTextMessageStart,
    ThinkingTextMessageContent,
    ThinkingTextMessageEnd,
    ToolCallStart,
    ToolCallChunk,
    ToolCallArgs,
    ToolCallEnd,
    ToolCallResult,
    MessagesSnapshot,
    StateSnapshot,
    StateDelta,
    Error,
    Raw,
    Custom,
}

/// The upper-snake-case name a kind has on the wire.
pub open spec fn kind_name(k: EventType) -> Seq<char> {
    match k {
        EventType::RunStarted => "RUN_STARTED"@,
        EventType::RunFinished => "RUN_FINISHED"@,
        EventType::RunAborted => "RUN_ABORTED"@,
        EventType::RunError => "RUN_ERROR"@,
        EventType::StepStarted => "STEP_STARTED"@,
        EventType::StepFinished => "STEP_FINISHED"@,
        EventType::TextMessageStart => "TEXT_MESSAGE_START"@,
        EventType::TextMessageContent => "TEXT_MESSAGE_CONTENT"@,
        EventType::TextMessageChunk => "TEXT_MESSAGE_CHUNK"@,
        EventType::TextMessageEnd => "TEXT_MESSAGE_END"@,
        EventType::ThinkingStart => "THINKING_START"@,
        EventType::ThinkingEnd => "THINKING_END"@,
        EventType::ThinkingTextMessageStart => "THINKING_TEXT_MESSAGE_START"@,
        EventType::ThinkingTextMessageContent => "THINKING_TEXT_MESSAGE_CONTENT"@,
        EventType::ThinkingTextMessageEnd => "THINKING_TEXT_MESSAGE_END"@,
        EventType::ToolCallStart => "TOOL_CALL_START"@,
        EventType::ToolCallChunk => "TOOL_CALL_CHUNK"@,
        EventType::ToolCallArgs => "TOOL_CALL_ARGS"@,
        EventType::ToolCallEnd => "TOOL_CALL_END"@,
        EventType::ToolCallResult => "TOOL_CALL_RESULT"@,
        EventType::MessagesSnapshot => "MESSAGES_SNAPSHOT"@,
        EventType::StateSnapshot => "STATE_SNAPSHOT"@,
        EventType::StateDelta => "STATE_DELTA"@,
        EventType::Error => "ERROR"@,
        EventType::Raw => "RAW"@,
        EventType::Custom => "CUSTOM"@,
    }
}

/// The kind a wire name stands for.
pub open spec fn kind_of_name(name: Seq<char>) -> Option<EventType> {
    if exists|k: EventType| kind_name(k) == name {
        Some(choose|k: EventType| kind_name(k) == name)
    } else {
        None
    }
}

/// No two kinds share a wire name.
pub proof fn lemma_kind_names_distinct(a: EventType, b: EventType)
    ensures
        kind_name(a) == kind_name(b) ==> a == b,
{
    reveal_strlit("RUN_STARTED");
    reveal_strlit("RUN_FINISHED");
    reveal_strlit("RUN_ABORTED");
    reveal_strlit("RUN_ERROR");
    reveal_strlit("STEP_STARTED");
    reveal_strlit("STEP_FINISHED");
    reveal_strlit("TEXT_MESSAGE_START");
    reveal_strlit("TEXT_MESSAGE_CONTENT");
    reveal_strlit("TEXT_MESSAGE_CHUNK");
    reveal_strlit("TEXT_MESSAGE_END");
    reveal_strlit("THINKING_START");
    reveal_strlit("THINKING_END");
    reveal_strlit("THINKING_TEXT_MESSAGE_START");
    reveal_strlit("THINKING_TEXT_MESSAGE_CONTENT");
    reveal_strlit("THINKING_TEXT_MESSAGE_END");
    reveal_strlit("TOOL_CALL_START");
    reveal_strlit("TOOL_CALL_CHUNK");
    reveal_strlit("TOOL_CALL_ARGS");
    reveal_strlit("TOOL_CALL_END");
    reveal_strlit("TOOL_CALL_RESULT");
    reveal_strlit("MESSAGES_SNAPSHOT");
    reveal_strlit("STATE_SNAPSHOT");
    reveal_strlit("STATE_DELTA");
    reveal_strlit("ERROR");
    reveal_strlit("RAW");
    reveal_strlit("CUSTOM");
    if kind_name(a) == kind_name(b) && a != b {
        let x = kind_name(a);
        let y = kind_name(b);
        assert(x.len() == y.len());
        assert(x[0] == y[0]);
        assert(x[1] == y[1]);
        assert(x[2] == y[2]);
        assert(x[3] == y[3]);
        assert(x[4] == y[4]);
        assert(x[5] == y[5]);
        assert(x[6] == y[6]);
        assert(x[7] == y[7]);
        assert(x[8] == y[8]);
        assert(x[9] == y[9]);
        assert(x[10] == y[10]);
        assert(x[11] == y[11]);
        assert(x[12] == y[12]);
        assert(x[13] == y[13]);
    }
}

pub proof fn lemma_kind_of_own_name(k: EventType)
    ensures
        kind_of_name(kind_name(k)) == Some(k),
{
    let c = choose|c: EventType| kind_name(c) == kind_name(k);
    lemma_kind_names_distinct(c, k);
}

impl EventType {
    /// The wire name of the kind.
    pub fn as_str(&self) -> (r: &'static str)
        ensures
            r@ == kind_name(*self),
    {
        match self {
            EventType::RunStarted => "RUN_STARTED",
            EventType::RunFinished => "RUN_FINISHED",
            EventType::RunAborted => "RUN_ABORTED",
            EventType::RunError => "RUN_ERROR",
            EventType::StepStarted => "STEP_STARTED",
            EventType::StepFinished => "STEP_FINISHED",
            EventType::TextMessageStart => "TEXT_MESSAGE_START",
            EventType::TextMessageContent => "TEXT_MESSAGE_CONTENT",
            EventType::TextMessageChunk => "TEXT_MESSAGE_CHUNK",
            EventType::TextMessageEnd => "TEXT_MESSAGE_END",
            EventType::ThinkingStart => "THINKING_START",
            EventType::ThinkingEnd => "THINKING_END",
            EventType::ThinkingTextMessageStart => "THINKING_TEXT_MESSAGE_START",
            EventType::ThinkingTextMessageContent => "THINKING_TEXT_MESSAGE_CONTENT",
            EventType::ThinkingTextMessageEnd => "THINKING_TEXT_MESSAGE_END",
            EventType::ToolCallStart => "TOOL_CALL_START",
            EventType::ToolCallChunk => "TOOL_CALL_CHUNK",
            EventType::ToolCallArgs => "TOOL_CALL_ARGS",
            EventType::ToolCallEnd => "TOOL_CALL_END",
            EventType::ToolCallResult => "TOOL_CALL_RESULT",
            EventType::MessagesSnapshot => "MESSAGES_SNAPSHOT",
            EventType::StateSnapshot => "STATE_SNAPSHOT",
            EventType::StateDelta => "STATE_DELTA",
            EventType::Error => "ERROR",
            EventType::Raw => "RAW",
            EventType::Custom => "CUSTOM",
        }
    }

    /// The kind with the given wire name, if there is one.
    pub fn from_name(name: &str) -> (r: Option<EventType>)
        ensures
            r == kind_of_name(name@),
    {
        let mut found: Option<EventType> = None;
        if same_text(name, "RUN_STARTED") {
            found = Some(EventType::RunStarted);
        } else if same_text(name, "RUN_FINISHED") {
            found = Some(EventType::RunFinished);
        } else if same_text(name, "RUN_ABORTED") {
            found = Some(EventType::RunAborted);
        } else if same_text(name, "RUN_ERROR") {
            found = Some(EventType::RunError);
        } else if same_text(name, "STEP_STARTED") {
            found = Some(EventType::StepStarted);
        } else if same_text(name, "STEP_FINISHED") {
            found = Some(EventType::StepFinished);
        } else if same_text(name, "TEXT_MESSAGE_START") {
            found = Some(EventType::TextMessageStart);
        } else if same_text(name, "TEXT_MESSAGE_CONTENT") {
            found = Some(EventType::TextMessageContent);
        } else if same_text(name, "TEXT_MESSAGE_CHUNK") {
            found = Some(EventType::TextMessageChunk);
        } else if same_text(name, "TEXT_MESSAGE_END") {
            found = Some(EventType::TextMessageEnd);
        } else if same_text(name, "THINKING_START") {
            found = Some(EventType::ThinkingStart);
        } else if same_text(name, "THINKING_END") {
            found = Some(EventType::ThinkingEnd);
        } else if same_text(name, "THINKING_TEXT_MESSAGE_START") {
            found = Some(EventType::ThinkingTextMessageStart);
        } else if same_text(name, "THINKING_TEXT_MESSAGE_CONTENT") {
            found = Some(EventType::ThinkingTextMessageContent);
        } else if same_text(name, "THINKING_TEXT_MESSAGE_END") {
            found = Some(EventType::ThinkingTextMessageEnd);
        } else if same_text(name, "TOOL_CALL_START") {
            found = Some(EventType::ToolCallStart);
        } else if same_text(name, "TOOL_CALL_CHUNK") {
            found = Some(EventType::ToolCallChunk);
        } else if same_text(name, "TOOL_CALL_ARGS") {
            found = Some(EventType::ToolCallArgs);
        } else if same_text(name, "TOOL_CALL_END") {
            found = Some(EventType::ToolCallEnd);
        } else if same_text(name, "TOOL_CALL_RESULT") {
            found = Some(EventType::ToolCallResult);
        } else if same_text(name, "MESSAGES_SNAPSHOT") {
            found = Some(EventType::MessagesSnapshot);
        } else if same_text(name, "STATE_SNAPSHOT") {
            found = Some(EventType::StateSnapshot);
        } else if same_text(name, "STATE_DELTA") {
            found = Some(EventType::StateDelta);
        } else if same_text(name, "ERROR") {
            found = Some(EventType::Error);
        } else if same_text(name, "RAW") {
            found = Some(EventType::Raw);
        } else if same_text(name, "CUSTOM") {
            found = Some(EventType::Custom);
        }
        if let Some(k) = found {
            proof {
                lemma_kind_of_own_name(k);
            }
        }
        found
    }
}

} // verus!
