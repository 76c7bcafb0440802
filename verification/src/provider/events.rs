//! The events a provider streams while a response arrives, and the framing of
//! server-sent events.
use vstd::prelude::*;
use crate::types::{Message, MessageV};

verus! {

/// An event streamed while a response arrives; `content_index` names the
/// content block a delta belongs to.
#[derive(Debug, Clone)]
pub enum StreamEvent {
    Start,
    TextDelta { content_index: usize, delta: String },
    ThinkingDelta { content_index: usize, delta: String },
    ToolCallStart { content_index: usize, id: String, name: String },
    ToolCallDelta { content_index: usize, delta: String },
    ToolCallEnd { content_index: usize },
    Done { message: Message },
    Error { message: Message },
}

/// The value of a [`StreamEvent`].
pub enum StreamEventV {
    Start,
    TextDelta { content_index: usize, delta: Seq<char> },
    ThinkingDelta { content_index: usize, delta: Seq<char> },
    ToolCallStart { content_index: usize, id: Seq<char>, name: Seq<char> },
    ToolCallDelta { content_index: usize, delta: Seq<char> },
    ToolCallEnd { content_index: usize },
    Done { message: MessageV },
    Error { message: MessageV },
}

impl View for StreamEvent {
    type V = StreamEventV;

    open spec fn view(&self) -> StreamEventV {
        match self {
            StreamEvent::Start => StreamEventV::Start,
            StreamEvent::TextDelta { content_index, delta } => StreamEventV::TextDelta {
                content_index: *content_index,
                delta: delta@,
            },
            StreamEvent::ThinkingDelta { content_index, delta } => StreamEventV::ThinkingDelta {
                content_index: *content_index,
                delta: delta@,
            },
            StreamEvent::ToolCallStart { content_index, id, name } => StreamEventV::ToolCallStart {
                content_index: *content_index,
                id: id@,
                name: name@,
            },
            StreamEvent::ToolCallDelta { content_index, delta } => StreamEventV::ToolCallDelta {
                content_index: *content_index,
                delta: delta@,
            },
            StreamEvent::ToolCallEnd { content_index } => StreamEventV::ToolCallEnd { content_index: *content_index },
            StreamEvent::Done { message } => StreamEventV::Done { message: message@ },
            StreamEvent::Error { message } => StreamEventV::Error { message: message@ },
        }
    }
}

/// The values of a list of stream events.
pub open spec fn events_view(v: Seq<StreamEvent>) -> Seq<StreamEventV> {
    v.map_values(|e: StreamEvent| e@)
}

/// One server-sent event: its `event` name and its `data` payload.
pub struct SseEvent {
    pub event: String,
    pub data: String,
}

/// What the transport of a server-sent event stream delivered next.
pub enum SseInput {
    /// The caller cancelled the stream.
    Cancelled,
    /// The server closed the stream.
    Ended,
    /// The connection opened.
    Opened,
    /// An event arrived.
    Message(SseEvent),
    /// The transport failed.
    Failed(String),
}

/// What to do with what the transport delivered.
pub enum SsePump {
    /// Wait for the next delivery.
    Continue,
    /// Forward the event to the consumer, then wait for the next delivery.
    Forward(SseEvent),
    /// Close the connection and finish with this outcome.
    Finish(Result<(), String>),
}

/// Decides what the event pump does with one delivery: cancellation finishes
/// with `Err("cancelled")`, the end of the stream finishes with `Ok(())`, an
/// opening is skipped, an event is forwarded, and a transport failure finishes
/// with its description.
pub fn pump_step(input: SseInput) -> (r: SsePump)
    ensures
        match input {
            SseInput::Cancelled => r matches SsePump::Finish(Err(e)) && e@ == "cancelled"@,
            SseInput::Ended => r matches SsePump::Finish(Ok(())),
            SseInput::Opened => r is Continue,
            SseInput::Message(ev) => r matches SsePump::Forward(f) && f.event@ == ev.event@ && f.data@ == ev.data@,
            SseInput::Failed(e) => r matches SsePump::Finish(Err(x)) && x@ == e@,
        },
{
    match input {
        SseInput::Cancelled => SsePump::Finish(Err(crate::strs::to_owned_string("cancelled"))),
        SseInput::Ended => SsePump::Finish(Ok(())),
        SseInput::Opened => SsePump::Continue,
        SseInput::Message(ev) => SsePump::Forward(ev),
        SseInput::Failed(e) => SsePump::Finish(Err(e)),
    }
}

} // verus!
