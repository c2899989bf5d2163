//! The chat-completions wire format: request bodies, streamed chunks, and error bodies.

use crate::json::{Json, JsonView};
use crate::text::opt;
use vstd::prelude::*;

verus! {

/// Request body for `POST {base_url}/chat/completions`. Absent options stay off the wire.
#[derive(Debug)]
pub struct WireRequest {
    pub model: String,
    pub messages: Vec<WireMessage>,
    /// Always streaming.
    pub stream: bool,
    pub stream_options: WireStreamOptions,
    /// Thinking-mode toggle.
    pub thinking: Option<WireThinking>,
    /// Thinking effort; only `high` and `max` ride the wire.
    pub reasoning_effort: Option<String>,
    pub tools: Option<Vec<WireTool>>,
    /// The IEEE 754 double of the temperature.
    pub temperature_bits: Option<u64>,
    pub max_tokens: Option<u64>,
    /// Stop sequences.
    pub stop: Option<Vec<String>>,
    /// Asks the 0G Router to verify a TEE attestation for this completion.
    pub verify_tee: Option<bool>,
}

#[derive(Debug, Clone)]
pub struct WireStreamOptions {
    pub include_usage: bool,
}

#[derive(Debug, Clone)]
pub struct WireThinking {
    /// `"enabled"` or `"disabled"`.
    pub kind: String,
}

/// One entry of the request's `messages`, told apart by its role.
#[derive(Debug, PartialEq)]
pub enum WireMessage {
    System { content: String },
    User { content: String },
    /// Assistant history. A turn of tool calls alone sends an empty `content`;
    /// `reasoning_content` is passed back on tool-call turns only.
    Assistant {
        content: String,
        reasoning_content: Option<String>,
        tool_calls: Option<Vec<WireToolCall>>,
    },
    /// The result of one tool call, keyed by its call id.
    Tool { tool_call_id: String, content: String },
}

/// A completed tool call replayed on an assistant message; `arguments` is raw JSON text.
#[derive(Debug, PartialEq)]
pub struct WireToolCall {
    pub id: String,
    pub kind: String,
    pub function: WireFunctionCall,
}

#[derive(Debug, PartialEq)]
pub struct WireFunctionCall {
    pub name: String,
    pub arguments: String,
}

/// One entry of the request's `tools`.
#[derive(Debug)]
pub struct WireTool {
    pub kind: String,
    pub function: WireFunctionDef,
}

/// A function offered to the model; `parameters` are the members of a JSON Schema object.
#[derive(Debug)]
pub struct WireFunctionDef {
    pub name: String,
    pub description: String,
    pub parameters: Vec<(String, Json)>,
}

/// One streamed payload.
#[derive(Debug, Clone, Default)]
pub struct WireChunk {
    pub choices: Vec<WireChoice>,
    /// Rides the finish chunk or a trailing chunk of its own.
    pub usage: Option<WireUsage>,
}

/// One streamed choice; `finish_reason` is present on its last chunk only.
#[derive(Debug, Clone, Default)]
pub struct WireChoice {
    pub delta: Option<WireDelta>,
    pub finish_reason: Option<String>,
}

/// The new content of one streamed choice; any subset per chunk.
#[derive(Debug, Clone, Default)]
pub struct WireDelta {
    /// Visible text.
    pub content: Option<String>,
    /// Thinking text; the first chunk of thinking mode carries an empty string.
    pub reasoning_content: Option<String>,
    pub tool_calls: Vec<WireToolCallDelta>,
}

/// A streamed fragment of one tool call; fragments of one `index` belong together.
#[derive(Debug, Clone, Default)]
pub struct WireToolCallDelta {
    pub index: u64,
    /// Present on the first fragment of each call only.
    pub id: Option<String>,
    pub function: Option<WireFunctionDelta>,
}

#[derive(Debug, Clone, Default)]
pub struct WireFunctionDelta {
    /// Present on the first fragment of each call only.
    pub name: Option<String>,
    /// A fragment of the arguments' JSON text.
    pub arguments: Option<String>,
}

/// Token counts as sent; `prompt_tokens` counts cache hits too.
#[derive(Debug, Clone, Default)]
pub struct WireUsage {
    pub prompt_tokens: u64,
    pub completion_tokens: u64,
    pub prompt_cache_hit_tokens: Option<u64>,
    pub prompt_tokens_details: Option<WirePromptDetails>,
    pub completion_tokens_details: Option<WireCompletionDetails>,
}

#[derive(Debug, Clone, Default)]
pub struct WirePromptDetails {
    pub cached_tokens: Option<u64>,
}

#[derive(Debug, Clone, Default)]
pub struct WireCompletionDetails {
    pub reasoning_tokens: Option<u64>,
}

/// Body of an answer outside 2xx.
#[derive(Debug, Clone, Default)]
pub struct WireError {
    pub error: Option<WireErrorDetail>,
}

#[derive(Debug, Clone, Default)]
pub struct WireErrorDetail {
    pub message: Option<String>,
    pub kind: Option<String>,
    pub error_type: Option<String>,
    pub code: Option<String>,
}

/// The mathematical value of a [`WireToolCall`].
pub struct ToolCallView {
    pub id: Seq<char>,
    pub kind: Seq<char>,
    pub name: Seq<char>,
    pub arguments: Seq<char>,
}

impl View for WireToolCall {
    type V = ToolCallView;

    open spec fn view(&self) -> ToolCallView {
        ToolCallView {
            id: self.id@,
            kind: self.kind@,
            name: self.function.name@,
            arguments: self.function.arguments@,
        }
    }
}

pub open spec fn tool_call_views(calls: Seq<WireToolCall>) -> Seq<ToolCallView> {
    calls.map_values(|c: WireToolCall| c@)
}

/// The mathematical value of a [`WireMessage`].
pub enum WireMessageView {
    System { content: Seq<char> },
    User { content: Seq<char> },
    Assistant {
        content: Seq<char>,
        reasoning_content: Option<Seq<char>>,
        tool_calls: Option<Seq<ToolCallView>>,
    },
    Tool { tool_call_id: Seq<char>, content: Seq<char> },
}

impl View for WireMessage {
    type V = WireMessageView;

    open spec fn view(&self) -> WireMessageView {
        match self {
            WireMessage::System { content } => WireMessageView::System { content: content@ },
            WireMessage::User { content } => WireMessageView::User { content: content@ },
            WireMessage::Assistant { content, reasoning_content, tool_calls } =>
                WireMessageView::Assistant {
                content: content@,
                reasoning_content: opt(*reasoning_content),
                tool_calls: match tool_calls {
                    Some(calls) => Some(tool_call_views(calls@)),
                    None => None,
                },
            },
            WireMessage::Tool { tool_call_id, content } => WireMessageView::Tool {
                tool_call_id: tool_call_id@,
                content: content@,
            },
        }
    }
}

pub open spec fn wire_messages(messages: Seq<WireMessage>) -> Seq<WireMessageView> {
    messages.map_values(|m: WireMessage| m@)
}

/// The mathematical value of a [`WireTool`].
pub struct ToolView {
    pub kind: Seq<char>,
    pub name: Seq<char>,
    pub description: Seq<char>,
    pub parameters: Seq<(Seq<char>, JsonView)>,
}

/// The values of an object's members.
pub open spec fn member_views(members: Seq<(String, Json)>) -> Seq<(Seq<char>, JsonView)> {
    members.map_values(|m: (String, Json)| (m.0@, m.1@))
}

impl View for WireTool {
    type V = ToolView;

    open spec fn view(&self) -> ToolView {
        ToolView {
            kind: self.kind@,
            name: self.function.name@,
            description: self.function.description@,
            parameters: member_views(self.function.parameters@),
        }
    }
}

/// The mathematical value of a [`WireToolCallDelta`].
pub struct CallDeltaView {
    pub index: u64,
    pub id: Option<Seq<char>>,
    pub name: Option<Seq<char>>,
    pub arguments: Option<Seq<char>>,
}

impl View for WireToolCallDelta {
    type V = CallDeltaView;

    open spec fn view(&self) -> CallDeltaView {
        CallDeltaView {
            index: self.index,
            id: opt(self.id),
            name: match self.function {
                Some(f) => opt(f.name),
                None => None,
            },
            arguments: match self.function {
                Some(f) => opt(f.arguments),
                None => None,
            },
        }
    }
}

/// The mathematical value of a [`WireDelta`].
pub struct DeltaView {
    pub content: Option<Seq<char>>,
    pub reasoning_content: Option<Seq<char>>,
    pub tool_calls: Seq<CallDeltaView>,
}

impl View for WireDelta {
    type V = DeltaView;

    open spec fn view(&self) -> DeltaView {
        DeltaView {
            content: opt(self.content),
            reasoning_content: opt(self.reasoning_content),
            tool_calls: self.tool_calls@.map_values(|c: WireToolCallDelta| c@),
        }
    }
}

/// The mathematical value of a [`WireChoice`].
pub struct ChoiceView {
    pub delta: Option<DeltaView>,
    pub finish_reason: Option<Seq<char>>,
}

impl View for WireChoice {
    type V = ChoiceView;

    open spec fn view(&self) -> ChoiceView {
        ChoiceView {
            delta: match self.delta {
                Some(d) => Some(d@),
                None => None,
            },
            finish_reason: opt(self.finish_reason),
        }
    }
}

/// The mathematical value of a [`WireChunk`].
pub struct PayloadView {
    pub choices: Seq<ChoiceView>,
    pub usage: Option<WireUsage>,
}

impl View for WireChunk {
    type V = PayloadView;

    open spec fn view(&self) -> PayloadView {
        PayloadView {
            choices: self.choices@.map_values(|c: WireChoice| c@),
            usage: self.usage,
        }
    }
}

/// A payload stands for what its choices say: each delta's text, reasoning, and tool-call
/// fragments, and each finish reason, as they were sent.
pub proof fn law_payloads_stand_for_their_choices(chunk: WireChunk, i: int, k: int)
    requires
        0 <= i < chunk.choices@.len(),
    ensures
        chunk@.usage == chunk.usage,
        chunk@.choices.len() == chunk.choices@.len(),
        ({
            let sent = chunk.choices@[i];
            let told = chunk@.choices[i];
            &&& told.finish_reason is Some <==> sent.finish_reason is Some
            &&& sent.finish_reason matches Some(reason) ==> told.finish_reason == Some(reason@)
            &&& told.delta is Some <==> sent.delta is Some
            &&& sent.delta matches Some(d) ==> {
                let v = told.delta->0;
                &&& v.content is Some <==> d.content is Some
                &&& d.content matches Some(text) ==> v.content == Some(text@)
                &&& v.reasoning_content is Some <==> d.reasoning_content is Some
                &&& d.reasoning_content matches Some(text) ==> v.reasoning_content == Some(text@)
                &&& v.tool_calls.len() == d.tool_calls@.len()
                &&& 0 <= k < d.tool_calls@.len() ==> {
                    let call = d.tool_calls@[k];
                    let c = v.tool_calls[k];
                    &&& c.index == call.index
                    &&& c.id is Some <==> call.id is Some
                    &&& call.id matches Some(id) ==> c.id == Some(id@)
                    &&& c.name is Some ==> call.function is Some
                    &&& c.arguments is Some ==> call.function is Some
                    &&& call.function matches Some(f) ==> {
                        &&& c.name is Some <==> f.name is Some
                        &&& f.name matches Some(name) ==> c.name == Some(name@)
                        &&& c.arguments is Some <==> f.arguments is Some
                        &&& f.arguments matches Some(text) ==> c.arguments == Some(text@)
                    }
                }
            }
        }),
{
}

/// Messages stand for what they hold: their role, their content, and, for an assistant, the
/// reasoning and the tool calls, one for one.
pub proof fn law_messages_stand_for_what_they_hold(m: WireMessage, k: int)
    ensures
        m matches WireMessage::System { content } ==> m@ == (WireMessageView::System {
            content: content@,
        }),
        m matches WireMessage::User { content } ==> m@ == (WireMessageView::User {
            content: content@,
        }),
        m matches WireMessage::Tool { tool_call_id, content } ==> m@ == (WireMessageView::Tool {
            tool_call_id: tool_call_id@,
            content: content@,
        }),
        m matches WireMessage::Assistant { content, reasoning_content, tool_calls } ==> {
            &&& m@->Assistant_content == content@
            &&& m@->Assistant_reasoning_content is Some <==> reasoning_content is Some
            &&& reasoning_content matches Some(text) ==> m@->Assistant_reasoning_content == Some(
                text@,
            )
            &&& m@->Assistant_tool_calls is Some <==> tool_calls is Some
            &&& tool_calls matches Some(calls) ==> {
                let told = m@->Assistant_tool_calls->0;
                &&& told.len() == calls@.len()
                &&& 0 <= k < calls@.len() ==> {
                    &&& told[k].id == calls@[k].id@
                    &&& told[k].kind == calls@[k].kind@
                    &&& told[k].name == calls@[k].function.name@
                    &&& told[k].arguments == calls@[k].function.arguments@
                }
            }
        },
{
}

/// Messages go out one for one.
pub proof fn law_wire_messages_are_one_for_one(s: Seq<WireMessage>, i: int)
    ensures
        wire_messages(s).len() == s.len(),
        0 <= i < s.len() ==> wire_messages(s)[i] == s[i]@,
{
}

}
