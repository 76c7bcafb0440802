//! Decoding the Azure OpenAI Responses event stream. Text goes to one text
//! block; function calls are collected in the order they start and appended
//! after the text when the response completes.
use vstd::prelude::*;
use crate::types::{StopReason, Usage};
use crate::provider::events::StreamEventV;
use crate::provider::anthropic::{StreamAction, StreamActionV};
use crate::provider::openai_compat::{OpenAiDecoder, OpenAiDecoderV, ToolBufferV, text_slot, with_text};

verus! {

/// The Azure OpenAI Responses provider. Its streaming call is driven outside the library;
/// the decoding of what it receives is done by [`apply_azure`].
pub struct AzureOpenAiProvider;

impl AzureOpenAiProvider {
    /// The identifier this provider reports.
    pub fn provider_id(&self) -> (r: &'static str)
        ensures
            r@ == "azure"@,
    {
        "azure"
    }
}

broadcast use vstd::string::group_string_axioms;

/// A streamed event of the Responses API, decoded from its name and data.
pub enum AzureEvent {
    /// `response.output_text.delta`.
    TextDelta(String),
    /// `response.function_call_arguments.start`, with the call's id and name if given.
    CallStart { call_id: Option<String>, name: Option<String> },
    /// `response.function_call_arguments.delta`.
    CallArgumentsDelta(String),
    /// `response.completed`, with the usage (input, output, total) if reported.
    Completed { usage: Option<(u64, u64, u64)> },
    /// `error`, with its payload.
    Error { data: String },
    /// Any other event, or one whose data does not parse.
    Ignored,
}

/// The text of an optional string, empty when absent.
pub open spec fn or_empty(s: Option<String>) -> Seq<char> {
    match s {
        Some(x) => x@,
        None => seq![],
    }
}

/// The decoder's state after an event.
pub open spec fn azure_next(d: OpenAiDecoderV, ev: AzureEvent) -> OpenAiDecoderV {
    match ev {
        AzureEvent::TextDelta(t) => OpenAiDecoderV { content: with_text(d.content, t@), ..d },
        AzureEvent::CallStart { call_id, name } => OpenAiDecoderV {
            buffers: d.buffers.push(ToolBufferV { id: or_empty(call_id), name: or_empty(name), arguments: seq![] }),
            ..d
        },
        AzureEvent::CallArgumentsDelta(t) => if d.buffers.len() == 0 {
            d
        } else {
            let last = d.buffers.last();
            OpenAiDecoderV {
                buffers: d.buffers.update(d.buffers.len() - 1, ToolBufferV { arguments: last.arguments + t@, ..last }),
                ..d
            }
        },
        AzureEvent::Completed { usage: Some((i, o, t)) } => OpenAiDecoderV {
            usage: Usage { input: i, output: o, total_tokens: t, ..d.usage },
            ..d
        },
        _ => d,
    }
}

/// What the consumer does after an event.
pub open spec fn azure_action(d: OpenAiDecoderV, ev: AzureEvent) -> StreamActionV {
    match ev {
        AzureEvent::TextDelta(t) => StreamActionV::Continue(
            Some(StreamEventV::TextDelta { content_index: text_slot(d.content) as usize, delta: t@ }),
        ),
        AzureEvent::CallStart { call_id, name } => StreamActionV::Continue(
            Some(StreamEventV::ToolCallStart {
                content_index: (d.content.len() + d.buffers.len()) as usize,
                id: or_empty(call_id),
                name: or_empty(name),
            }),
        ),
        AzureEvent::CallArgumentsDelta(t) => if d.buffers.len() == 0 {
            StreamActionV::Continue(None)
        } else {
            StreamActionV::Continue(
                Some(StreamEventV::ToolCallDelta { content_index: (d.content.len() + d.buffers.len() - 1) as usize, delta: t@ }),
            )
        },
        AzureEvent::Completed { .. } => StreamActionV::Complete,
        AzureEvent::Error { data } => StreamActionV::Fail(data@),
        AzureEvent::Ignored => StreamActionV::Continue(None),
    }
}

fn unwrap_or_empty(s: Option<String>) -> (r: String)
    ensures
        r@ == or_empty(s),
{
    match s {
        Some(x) => x,
        None => String::new(),
    }
}

/// Applies one Responses event to the decoder and says what to stream and
/// whether the response is complete or failed.
pub fn apply_azure(d: &mut OpenAiDecoder, ev: AzureEvent) -> (r: StreamAction)
    requires
        old(d)@.content.len() + old(d)@.buffers.len() < usize::MAX,
    ensures
        final(d)@ == azure_next(old(d)@, ev),
        r@ == azure_action(old(d)@, ev),
{
    match ev {
        AzureEvent::TextDelta(t) => StreamAction::Continue(Some(d.push_text(t))),
        AzureEvent::CallStart { call_id, name } => {
            let e = d.open_call(unwrap_or_empty(call_id), unwrap_or_empty(name));
            StreamAction::Continue(Some(e))
        },
        AzureEvent::CallArgumentsDelta(t) => StreamAction::Continue(d.extend_last_call(t)),
        AzureEvent::Completed { usage } => {
            if let Some((i, o, t)) = usage {
                d.set_usage(i, o, t);
            }
            StreamAction::Complete
        },
        AzureEvent::Error { data } => StreamAction::Fail(data),
        AzureEvent::Ignored => StreamAction::Continue(None),
    }
}

} // verus!
