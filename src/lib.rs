//! Streaming codec for agent activity events: an event model, a Server-Sent-Events
//! encoder, a frame reassembler for byte streams and an event decoder.
pub mod agent;
pub mod batch;
pub mod encoder;
pub mod error;
pub mod events;
pub mod fields;
pub mod framing;
pub mod json;
pub mod kinds;
pub mod stream;
pub mod time;
pub mod types;

pub use agent::{Agent, Context, RunAgentInput, Tool, WebAgent};
pub use encoder::SseEncoder;
pub use encoder::SseEncoder as SSEEncoder;
pub use error::{AgUiError, Result};
pub use events::{
    BaseEvent, CustomEvent, ErrorEvent, EventData, MessagesSnapshotEvent, RawEvent,
    RunAbortedEvent, RunErrorEvent, RunFinishedEvent, RunStartedEvent, StateDeltaEvent,
    StateSnapshotEvent, StepFinishedEvent, StepStartedEvent, TextMessageChunkEvent,
    TextMessageContentEvent, TextMessageEndEvent, TextMessageStartEvent, ThinkingEndEvent,
    ThinkingStartEvent, ThinkingTextMessageContentEvent, ThinkingTextMessageEndEvent,
    ThinkingTextMessageStartEvent, ToolCallArgsEvent, ToolCallChunkEvent, ToolCallEndEvent,
    ToolCallResultEvent, ToolCallStartEvent,
};
pub use fields::DecodeError;
pub use framing::FrameReassembler;
pub use json::JsonValue;
pub use kinds::EventType;
pub use stream::{decode_line, decode_one, EventStream};
pub use time::Timestamp;
pub use types::{
    FunctionCall, Message, PatchOp, PatchOperation, Role, State, ToolCall, ToolResult,
};
