//! Serialization of a conversation into chat-completions messages. User text joins; assistant
//! text becomes `content`, tool calls become `tool_calls`, tool results become tool-role
//! messages of their own. Assistant reasoning is passed back on tool-call turns only. Images
//! are refused: this route is text-only.

use crate::chat::{
    contents, flat_text, flatten_text, message_views, CallPurpose, ContentBlock, ContentView,
    ErrorView, GenerateOptions, LlmError, Message, MessageView, Role, ToolSchema,
};
use crate::json::{json_clone, Json};
use crate::text::{clone_opt, clone_strings, opt, opt_is, str_eq, views};
use crate::wire::{
    member_views, tool_call_views, wire_messages, ToolCallView, ToolView, WireFunctionCall,
    WireFunctionDef, WireMessage, WireMessageView, WireRequest, WireStreamOptions, WireThinking,
    WireTool, WireToolCall,
};
use vstd::prelude::*;
use vstd::string::*;

verus! {

/// Request defaults of one deployment.
#[derive(Debug, Clone, Default, PartialEq)]
pub struct RequestDefaults {
    /// `enabled` or `disabled`; `None` puts nothing on the wire.
    pub thinking: Option<String>,
    /// `off`, `high`, or `max`.
    pub reasoning_effort: Option<String>,
}

/// A thinking mode and an effort, as they go on the wire.
pub struct ResolvedThinking {
    pub thinking: Option<String>,
    pub reasoning_effort: Option<String>,
}

/// The mathematical value of a [`ResolvedThinking`].
pub struct ThinkingView {
    pub thinking: Option<Seq<char>>,
    pub reasoning_effort: Option<Seq<char>>,
}

impl View for ResolvedThinking {
    type V = ThinkingView;

    open spec fn view(&self) -> ThinkingView {
        ThinkingView {
            thinking: opt(self.thinking),
            reasoning_effort: opt(self.reasoning_effort),
        }
    }
}

/// An effort that a request may name.
pub open spec fn known_effort(effort: Seq<char>) -> bool {
    effort == "off"@ || effort == "high"@ || effort == "max"@
}

/// The error of an effort that is not known.
pub open spec fn unknown_effort(effort: Seq<char>) -> ErrorView {
    ErrorView {
        message: "DeepSeek does not support reasoning effort \""@ + effort + "\""@,
        code: "UNSUPPORTED_REASONING_EFFORT"@,
    }
}

/// The error of an effort where the deployment has thinking switched off.
pub open spec fn refused_effort(effort: Seq<char>) -> ErrorView {
    ErrorView {
        message: "DeepSeek deployment does not support reasoning effort \""@ + effort + "\""@,
        code: "UNSUPPORTED_REASONING_EFFORT"@,
    }
}

/// Checks an effort that a request names.
pub fn validated_effort(effort: &str) -> (r: Result<String, LlmError>)
    ensures
        match r {
            Ok(s) => known_effort(effort@) && s@ == effort@,
            Err(e) => !known_effort(effort@) && e@ == unknown_effort(effort@),
        },
{
    if str_eq(effort, "off") || str_eq(effort, "high") || str_eq(effort, "max") {
        Ok(effort.to_owned())
    } else {
        let mut message = "DeepSeek does not support reasoning effort \"".to_owned();
        message.append(effort);
        message.append("\"");
        Err(LlmError::new(message, "UNSUPPORTED_REASONING_EFFORT"))
    }
}

/// The thinking mode and effort of a call: what the request names wins over the default, `off`
/// never goes on the wire as an effort, and a title call never thinks.
pub open spec fn thinking_of(
    purpose: Option<CallPurpose>,
    requested: Option<Seq<char>>,
    default_thinking: Option<Seq<char>>,
    default_effort: Option<Seq<char>>,
) -> Result<ThinkingView, ErrorView> {
    let effort = if requested is Some {
        requested
    } else {
        default_effort
    };
    if purpose == Some(CallPurpose::SessionTitle) {
        Ok(ThinkingView { thinking: Some("disabled"@), reasoning_effort: None })
    } else if requested is Some && !known_effort(requested->0) {
        Err(unknown_effort(requested->0))
    } else if default_thinking == Some("disabled"@) && effort is Some && effort->0 != "off"@ {
        Err(refused_effort(effort->0))
    } else if effort == Some("off"@) {
        Ok(ThinkingView { thinking: Some("disabled"@), reasoning_effort: None })
    } else if effort == Some("high"@) || effort == Some("max"@) {
        Ok(ThinkingView { thinking: Some("enabled"@), reasoning_effort: effort })
    } else {
        Ok(ThinkingView { thinking: default_thinking, reasoning_effort: None })
    }
}

/// Resolves one legal pair of thinking mode and effort.
pub fn resolve_thinking(options: &GenerateOptions, defaults: &RequestDefaults) -> (r: Result<
    ResolvedThinking,
    LlmError,
>)
    ensures
        (match r {
            Ok(t) => Ok::<ThinkingView, ErrorView>(t@),
            Err(e) => Err(e@),
        }) == request_thinking(*options, *defaults),
{
    if let Some(CallPurpose::SessionTitle) = options.purpose {
        return Ok(
            ResolvedThinking { thinking: Some("disabled".to_owned()), reasoning_effort: None },
        );
    }
    let effort = match &options.reasoning_effort {
        Some(effort) => match validated_effort(effort.as_str()) {
            Ok(effort) => Some(effort),
            Err(error) => {
                return Err(error);
            },
        },
        None => clone_opt(&defaults.reasoning_effort),
    };
    if opt_is(&defaults.thinking, "disabled") {
        if let Some(effort) = &effort {
            if !str_eq(effort.as_str(), "off") {
                let mut message =
                    "DeepSeek deployment does not support reasoning effort \"".to_owned();
                message.append(effort.as_str());
                message.append("\"");
                return Err(LlmError::new(message, "UNSUPPORTED_REASONING_EFFORT"));
            }
        }
    }
    if opt_is(&effort, "off") {
        Ok(ResolvedThinking { thinking: Some("disabled".to_owned()), reasoning_effort: None })
    } else if opt_is(&effort, "high") || opt_is(&effort, "max") {
        Ok(ResolvedThinking { thinking: Some("enabled".to_owned()), reasoning_effort: effort })
    } else {
        Ok(
            ResolvedThinking {
                thinking: clone_opt(&defaults.thinking),
                reasoning_effort: None,
            },
        )
    }
}

/// What a block adds to the reasoning.
pub open spec fn block_reasoning(b: ContentView) -> Seq<char> {
    match b {
        ContentView::Reasoning { text } => text,
        _ => Seq::empty(),
    }
}

/// The texts of the reasoning blocks, one after the other.
pub open spec fn flat_reasoning(blocks: Seq<ContentView>) -> Seq<char>
    decreases blocks.len(),
{
    if blocks.len() == 0 {
        Seq::empty()
    } else {
        flat_reasoning(blocks.drop_last()) + block_reasoning(blocks.last())
    }
}

/// The tool calls among the blocks, in order.
pub open spec fn calls_of(blocks: Seq<ContentView>) -> Seq<ToolCallView>
    decreases blocks.len(),
{
    if blocks.len() == 0 {
        Seq::empty()
    } else {
        let before = calls_of(blocks.drop_last());
        match blocks.last() {
            ContentView::ToolCall { id, name, arguments } => before.push(
                ToolCallView { id, kind: "function"@, name, arguments },
            ),
            _ => before,
        }
    }
}

/// An assistant message on the wire.
pub open spec fn assistant_wire(blocks: Seq<ContentView>) -> WireMessageView {
    let calls = calls_of(blocks);
    let reasoning = flat_reasoning(blocks);
    WireMessageView::Assistant {
        content: flat_text(blocks),
        reasoning_content: if calls.len() > 0 && reasoning.len() > 0 {
            Some(reasoning)
        } else {
            None
        },
        tool_calls: if calls.len() > 0 {
            Some(calls)
        } else {
            None
        },
    }
}

/// The content of a tool-role message: the output's text, or a placeholder where there is
/// none.
pub open spec fn result_text(content: Seq<ContentView>) -> Seq<char> {
    if flat_text(content).len() == 0 {
        "(no output)"@
    } else {
        flat_text(content)
    }
}

/// The tool results among the blocks as tool-role messages, in order.
pub open spec fn results_of(blocks: Seq<ContentView>) -> Seq<WireMessageView>
    decreases blocks.len(),
{
    if blocks.len() == 0 {
        Seq::empty()
    } else {
        let before = results_of(blocks.drop_last());
        match blocks.last() {
            ContentView::ToolResult { tool_call_id, is_error, content } => before.push(
                WireMessageView::Tool { tool_call_id, content: result_text(content) },
            ),
            _ => before,
        }
    }
}

/// A user message on the wire: its text first, unless there is none beside tool results, and
/// its tool results after.
pub open spec fn user_wire(blocks: Seq<ContentView>) -> Seq<WireMessageView> {
    let results = results_of(blocks);
    let text = flat_text(blocks);
    if text.len() > 0 || results.len() == 0 {
        seq![WireMessageView::User { content: text }] + results
    } else {
        results
    }
}

/// The wire messages of one message.
pub open spec fn message_wire(m: MessageView) -> Seq<WireMessageView> {
    match m.role {
        Role::System => seq![WireMessageView::System { content: flat_text(m.content) }],
        Role::Assistant => seq![assistant_wire(m.content)],
        Role::User => user_wire(m.content),
    }
}

/// The wire messages of a conversation, in order.
pub open spec fn conversation_wire(messages: Seq<MessageView>) -> Seq<WireMessageView>
    decreases messages.len(),
{
    if messages.len() == 0 {
        Seq::empty()
    } else {
        conversation_wire(messages.drop_last()) + message_wire(messages.last())
    }
}

/// No message holds an image.
pub open spec fn text_only(messages: Seq<MessageView>) -> bool {
    forall|i: int| 0 <= i < messages.len() ==> !(#[trigger] messages[i]).has_image
}

/// The error of a conversation that holds an image.
pub open spec fn image_refused() -> ErrorView {
    ErrorView {
        message: "The DeepSeek chat-completions adapter does not support image content."@,
        code: "UNSUPPORTED_CONTENT"@,
    }
}

fn serialize_assistant(message: &Message) -> (r: WireMessage)
    ensures
        r@ == assistant_wire(message@.content),
{
    let blocks = &message.content;
    let ghost all = message@.content;
    let text = flatten_text(blocks);
    let mut reasoning = String::new();
    let mut calls: Vec<WireToolCall> = Vec::new();
    let mut i: usize = 0;
    assert(all.take(0) =~= Seq::<ContentView>::empty());
    assert(tool_call_views(calls@) =~= Seq::<ToolCallView>::empty());
    while i < blocks.len()
        invariant
            i <= blocks@.len(),
            all == contents(blocks@),
            reasoning@ == flat_reasoning(all.take(i as int)),
            tool_call_views(calls@) == calls_of(all.take(i as int)),
        decreases blocks@.len() - i,
    {
        let ghost told = tool_call_views(calls@);
        assert(all.take(i + 1).drop_last() =~= all.take(i as int));
        assert(all.take(i + 1).last() == blocks@[i as int]@);
        match &blocks[i] {
            ContentBlock::Reasoning { text } => {
                reasoning.append(text.as_str());
            },
            ContentBlock::ToolCall { id, name, arguments } => {
                calls.push(
                    WireToolCall {
                        id: id.clone(),
                        kind: "function".to_owned(),
                        function: WireFunctionCall {
                            name: name.clone(),
                            arguments: arguments.clone(),
                        },
                    },
                );
                assert(tool_call_views(calls@) =~= told.push(calls@.last()@));
            },
            _ => {},
        }
        i = i + 1;
        assert(reasoning@ =~= flat_reasoning(all.take(i as int)));
    }
    assert(all.take(i as int) =~= all);
    assert(calls_of(all).len() == calls@.len());
    let passed = calls.len() > 0 && !reasoning.as_str().is_empty();
    WireMessage::Assistant {
        content: text,
        reasoning_content: if passed {
            Some(reasoning)
        } else {
            None
        },
        tool_calls: if calls.len() > 0 {
            Some(calls)
        } else {
            None
        },
    }
}

fn serialize_user(message: &Message, wire: &mut Vec<WireMessage>)
    ensures
        wire_messages(final(wire)@) == wire_messages(old(wire)@) + user_wire(message@.content),
{
    let blocks = &message.content;
    let ghost all = message@.content;
    let ghost before = wire_messages(wire@);
    let mut results: Vec<WireMessage> = Vec::new();
    let mut i: usize = 0;
    assert(all.take(0) =~= Seq::<ContentView>::empty());
    assert(wire_messages(results@) =~= Seq::<WireMessageView>::empty());
    while i < blocks.len()
        invariant
            i <= blocks@.len(),
            all == contents(blocks@),
            wire_messages(results@) == results_of(all.take(i as int)),
        decreases blocks@.len() - i,
    {
        let ghost told = wire_messages(results@);
        assert(all.take(i + 1).drop_last() =~= all.take(i as int));
        assert(all.take(i + 1).last() == blocks@[i as int]@);
        match &blocks[i] {
            ContentBlock::ToolResult { tool_call_id, is_error, content } => {
                let flattened = flatten_text(content);
                assert(contents(content@) =~= blocks@[i as int]@->ToolResult_content);
                results.push(
                    WireMessage::Tool {
                        tool_call_id: tool_call_id.clone(),
                        // Empty tool output still needs some wire content.
                        content: if flattened.as_str().is_empty() {
                            "(no output)".to_owned()
                        } else {
                            flattened
                        },
                    },
                );
                assert(wire_messages(results@) =~= told.push(results@.last()@));
            },
            _ => {},
        }
        i = i + 1;
    }
    assert(all.take(i as int) =~= all);
    assert(results_of(all).len() == results@.len());
    let text = flatten_text(blocks);
    if !text.as_str().is_empty() || results.len() == 0 {
        wire.push(WireMessage::User { content: text });
    }
    let ghost mid = wire@;
    let ghost rest = results@;
    wire.append(&mut results);
    assert(wire@ =~= mid + rest);
    assert(wire_messages(wire@) =~= before + user_wire(all));
}

/// Serializes the conversation, order preserved.
pub fn serialize_messages(messages: &Vec<Message>) -> (r: Result<Vec<WireMessage>, LlmError>)
    ensures
        match r {
            Ok(wire) => {
                &&& text_only(message_views(messages@))
                &&& wire_messages(wire@) == conversation_wire(message_views(messages@))
            },
            Err(e) => !text_only(message_views(messages@)) && e@ == image_refused(),
        },
{
    let mut wire: Vec<WireMessage> = Vec::new();
    let ghost all = message_views(messages@);
    let mut i: usize = 0;
    assert(all.take(0) =~= Seq::<MessageView>::empty());
    assert(wire_messages(wire@) =~= Seq::<WireMessageView>::empty());
    while i < messages.len()
        invariant
            i <= messages@.len(),
            all == message_views(messages@),
            forall|j: int| 0 <= j < i ==> !(#[trigger] all[j]).has_image,
            wire_messages(wire@) == conversation_wire(all.take(i as int)),
        decreases messages@.len() - i,
    {
        let ghost told = wire_messages(wire@);
        let message = &messages[i];
        assert(all[i as int] == message@);
        assert(all.take(i + 1).drop_last() =~= all.take(i as int));
        assert(all.take(i + 1).last() == message@);
        // Images are refused before any flattening could silently drop them.
        if message.has_image {
            return Err(
                LlmError::new(
                    "The DeepSeek chat-completions adapter does not support image content.".to_owned(),
                    "UNSUPPORTED_CONTENT",
                ),
            );
        }
        match message.role {
            Role::System => {
                wire.push(WireMessage::System { content: flatten_text(&message.content) });
            },
            Role::Assistant => {
                wire.push(serialize_assistant(message));
            },
            Role::User => {
                serialize_user(message, &mut wire);
            },
        }
        assert(wire_messages(wire@) =~= told + message_wire(message@));
        i = i + 1;
    }
    assert(all.take(i as int) =~= all);
    Ok(wire)
}

/// A tool on the wire.
pub open spec fn tool_wire(tool: ToolSchema) -> ToolView {
    ToolView {
        kind: "function"@,
        name: tool.name@,
        description: tool.description@,
        parameters: member_views(tool.parameters@),
    }
}

/// The tools on the wire; an empty list is left out.
pub open spec fn tools_wire(tools: Option<Vec<ToolSchema>>) -> Option<Seq<ToolView>> {
    match tools {
        Some(tools) => if tools@.len() > 0 {
            Some(tools@.map_values(|t: ToolSchema| tool_wire(t)))
        } else {
            None
        },
        None => None,
    }
}

/// The values of a request's tools.
pub open spec fn tool_views(tools: Option<Vec<WireTool>>) -> Option<Seq<ToolView>> {
    match tools {
        Some(tools) => Some(tools@.map_values(|t: WireTool| t@)),
        None => None,
    }
}

fn clone_members(members: &Vec<(String, Json)>) -> (r: Vec<(String, Json)>)
    ensures
        member_views(r@) == member_views(members@),
{
    let mut out: Vec<(String, Json)> = Vec::new();
    let mut i: usize = 0;
    while i < members.len()
        invariant
            i <= members@.len(),
            out@.len() == i,
            forall|k: int|
                0 <= k < i ==> (#[trigger] out@[k]).0@ == members@[k].0@ && out@[k].1@
                    == members@[k].1@,
        decreases members@.len() - i,
    {
        out.push((members[i].0.clone(), json_clone(&members[i].1)));
        i = i + 1;
    }
    assert(member_views(out@) =~= member_views(members@));
    out
}

fn serialize_tools(tools: &Option<Vec<ToolSchema>>) -> (r: Option<Vec<WireTool>>)
    ensures
        tool_views(r) == tools_wire(*tools),
{
    match tools {
        Some(tools) => {
            if tools.len() == 0 {
                return None;
            }
            let mut out: Vec<WireTool> = Vec::new();
            let mut i: usize = 0;
            while i < tools.len()
                invariant
                    i <= tools@.len(),
                    out@.len() == i,
                    forall|k: int| 0 <= k < i ==> (#[trigger] out@[k])@ == tool_wire(tools@[k]),
                decreases tools@.len() - i,
            {
                let tool = &tools[i];
                out.push(
                    WireTool {
                        kind: "function".to_owned(),
                        function: WireFunctionDef {
                            name: tool.name.clone(),
                            description: tool.description.clone(),
                            parameters: clone_members(&tool.parameters),
                        },
                    },
                );
                i = i + 1;
            }
            assert(tool_views(Some(out))->0 =~= tools_wire(Some(*tools))->0);
            Some(out)
        },
        None => None,
    }
}

/// The messages of a request: the system prompt first, where there is one.
pub open spec fn request_messages(options: GenerateOptions) -> Seq<WireMessageView> {
    let conversation = conversation_wire(message_views(options.messages@));
    match options.system {
        Some(system) => seq![WireMessageView::System { content: system@ }] + conversation,
        None => conversation,
    }
}

/// The resolved thinking of a request.
pub open spec fn request_thinking(options: GenerateOptions, defaults: RequestDefaults) -> Result<
    ThinkingView,
    ErrorView,
> {
    thinking_of(
        options.purpose,
        opt(options.reasoning_effort),
        opt(defaults.thinking),
        opt(defaults.reasoning_effort),
    )
}

/// The strings of an optional list.
pub open spec fn opt_views(parts: Option<Vec<String>>) -> Option<Seq<Seq<char>>> {
    match parts {
        Some(parts) => Some(views(parts@)),
        None => None,
    }
}

/// `body` is the request that `options` and `defaults` stand for.
pub open spec fn is_request(
    body: WireRequest,
    options: GenerateOptions,
    defaults: RequestDefaults,
) -> bool {
    let thinking = request_thinking(options, defaults)->Ok_0;
    &&& body.model@ == options.model@
    &&& wire_messages(body.messages@) == request_messages(options)
    &&& body.stream
    &&& body.stream_options.include_usage
    &&& match body.thinking {
        Some(t) => thinking.thinking == Some(t.kind@),
        None => thinking.thinking is None,
    }
    &&& opt(body.reasoning_effort) == thinking.reasoning_effort
    &&& tool_views(body.tools) == tools_wire(options.tools)
    &&& body.temperature_bits == options.temperature_bits
    &&& body.max_tokens == options.max_tokens
    &&& opt_views(body.stop) == opt_views(options.stop)
    &&& body.verify_tee is None
}

/// Builds the whole request: always streaming, with usage reporting on; what is not set is
/// left out, so that the provider's defaults apply. An image is refused before an effort.
pub fn serialize_request(options: &GenerateOptions, defaults: &RequestDefaults) -> (r: Result<
    WireRequest,
    LlmError,
>)
    ensures
        match r {
            Ok(body) => {
                &&& text_only(message_views(options.messages@))
                &&& request_thinking(*options, *defaults) is Ok
                &&& is_request(body, *options, *defaults)
            },
            Err(e) => if !text_only(message_views(options.messages@)) {
                e@ == image_refused()
            } else {
                request_thinking(*options, *defaults) == Err::<ThinkingView, ErrorView>(e@)
            },
        },
{
    let mut messages: Vec<WireMessage> = Vec::new();
    if let Some(system) = &options.system {
        messages.push(WireMessage::System { content: system.clone() });
    }
    let mut conversation = match serialize_messages(&options.messages) {
        Ok(conversation) => conversation,
        Err(error) => {
            return Err(error);
        },
    };
    let ghost first = messages@;
    let ghost rest = conversation@;
    messages.append(&mut conversation);
    assert(messages@ =~= first + rest);
    assert(wire_messages(messages@) =~= wire_messages(first) + wire_messages(rest));
    assert(wire_messages(messages@) =~= request_messages(*options));
    let tools = serialize_tools(&options.tools);
    let resolved = match resolve_thinking(options, defaults) {
        Ok(resolved) => resolved,
        Err(error) => {
            return Err(error);
        },
    };
    let stop = match &options.stop {
        Some(stop) => Some(clone_strings(stop)),
        None => None,
    };
    Ok(
        WireRequest {
            model: options.model.clone(),
            messages,
            stream: true,
            stream_options: WireStreamOptions { include_usage: true },
            thinking: match resolved.thinking {
                Some(kind) => Some(WireThinking { kind }),
                None => None,
            },
            reasoning_effort: resolved.reasoning_effort,
            tools,
            temperature_bits: options.temperature_bits,
            max_tokens: options.max_tokens,
            stop,
            verify_tee: None,
        },
    )
}

/// A title call never thinks, whatever the request and the deployment say.
pub proof fn law_titles_do_not_think(
    requested: Option<Seq<char>>,
    default_thinking: Option<Seq<char>>,
    default_effort: Option<Seq<char>>,
)
    ensures
        thinking_of(
            Some(CallPurpose::SessionTitle),
            requested,
            default_thinking,
            default_effort,
        ) == Ok::<ThinkingView, ErrorView>(
            ThinkingView { thinking: Some("disabled"@), reasoning_effort: None },
        ),
{
}

/// Only `high` and `max` ever go on the wire as an effort, and only with thinking enabled.
pub proof fn law_wire_effort_is_high_or_max(
    purpose: Option<CallPurpose>,
    requested: Option<Seq<char>>,
    default_thinking: Option<Seq<char>>,
    default_effort: Option<Seq<char>>,
)
    ensures
        thinking_of(purpose, requested, default_thinking, default_effort) matches Ok(t) ==> (
        t.reasoning_effort matches Some(e) ==> (e == "high"@ || e == "max"@) && t.thinking == Some(
            "enabled"@,
        )),
{
}

/// Where the deployment has thinking switched off, it stays off.
pub proof fn law_disabled_deployment_stays_disabled(
    purpose: Option<CallPurpose>,
    requested: Option<Seq<char>>,
    default_effort: Option<Seq<char>>,
)
    ensures
        thinking_of(purpose, requested, Some("disabled"@), default_effort) matches Ok(t)
            ==> t.thinking == Some("disabled"@) && t.reasoning_effort is None,
{
    reveal_strlit("off");
    reveal_strlit("high");
    reveal_strlit("max");
    assert("off"@.len() == 3 && "high"@.len() == 4);
    assert("off"@[0] == 'o' && "max"@[0] == 'm');
}

/// The conversation is serialized message by message: what comes first stays first.
pub proof fn law_order_is_preserved(a: Seq<MessageView>, b: Seq<MessageView>)
    ensures
        conversation_wire(a + b) == conversation_wire(a) + conversation_wire(b),
    decreases b.len(),
{
    if b.len() == 0 {
        assert(a + b =~= a);
        assert(conversation_wire(a) + conversation_wire(b) =~= conversation_wire(a));
    } else {
        law_order_is_preserved(a, b.drop_last());
        assert((a + b).drop_last() =~= a + b.drop_last());
        assert(conversation_wire(a + b) =~= conversation_wire(a) + conversation_wire(b));
    }
}

/// No assistant turn passes reasoning back without a tool call, and no tool-call list on the
/// wire is empty.
pub proof fn law_reasoning_rides_tool_calls(blocks: Seq<ContentView>)
    ensures
        assistant_wire(blocks)->Assistant_reasoning_content is Some
            ==> assistant_wire(blocks)->Assistant_tool_calls is Some,
        assistant_wire(blocks)->Assistant_tool_calls matches Some(calls) ==> calls.len() > 0,
{
}

/// No message vanishes: every message of the conversation puts at least one on the wire.
pub proof fn law_no_message_vanishes(m: MessageView)
    ensures
        message_wire(m).len() > 0,
{
}

/// A tool-role message never has empty content.
pub proof fn law_tool_output_is_never_empty(content: Seq<ContentView>)
    ensures
        result_text(content).len() > 0,
{
    reveal_strlit("(no output)");
}

/// What one message puts on the wire.
pub open spec fn sent(role: Role, blocks: Seq<ContentView>) -> Seq<WireMessageView> {
    conversation_wire(
        seq![MessageView { id: Seq::empty(), role, content: blocks, has_image: false }],
    )
}

/// The tool calls that a wire message carries.
pub open spec fn carried_calls(m: WireMessageView) -> Seq<ToolCallView> {
    match m {
        WireMessageView::Assistant { content, reasoning_content, tool_calls: Some(calls) } => calls,
        _ => Seq::empty(),
    }
}

proof fn lemma_sent(role: Role, blocks: Seq<ContentView>)
    ensures
        sent(role, blocks) == message_wire(
            MessageView { id: Seq::empty(), role, content: blocks, has_image: false },
        ),
{
    let m = MessageView { id: Seq::empty(), role, content: blocks, has_image: false };
    reveal_with_fuel(conversation_wire, 2);
    assert(seq![m].drop_last() =~= Seq::<MessageView>::empty());
    assert(sent(role, blocks) =~= message_wire(m));
}

proof fn lemma_calls_concat(a: Seq<ContentView>, b: Seq<ContentView>)
    ensures
        calls_of(a + b) == calls_of(a) + calls_of(b),
        flat_reasoning(a + b) == flat_reasoning(a) + flat_reasoning(b),
        results_of(a + b) == results_of(a) + results_of(b),
    decreases b.len(),
{
    if b.len() == 0 {
        assert(a + b =~= a);
        assert(calls_of(a) + calls_of(b) =~= calls_of(a));
        assert(flat_reasoning(a) + flat_reasoning(b) =~= flat_reasoning(a));
        assert(results_of(a) + results_of(b) =~= results_of(a));
    } else {
        lemma_calls_concat(a, b.drop_last());
        assert((a + b).drop_last() =~= a + b.drop_last());
        assert(calls_of(a + b) =~= calls_of(a) + calls_of(b));
        assert(flat_reasoning(a + b) =~= flat_reasoning(a) + flat_reasoning(b));
        assert(results_of(a + b) =~= results_of(a) + results_of(b));
    }
}

/// An assistant turn is one message on the wire, and its tool calls are exactly the tool-call
/// blocks of the turn: those of two lists of blocks are those of the one and then those of the
/// other, a lone tool-call block gives its one call with its id, name, and arguments, and any
/// other lone block gives none.
pub proof fn law_every_tool_call_is_sent(
    a: Seq<ContentView>,
    b: Seq<ContentView>,
    block: ContentView,
)
    ensures
        sent(Role::Assistant, a).len() == 1,
        sent(Role::Assistant, a)[0] is Assistant,
        carried_calls(sent(Role::Assistant, a + b)[0]) == carried_calls(
            sent(Role::Assistant, a)[0],
        ) + carried_calls(sent(Role::Assistant, b)[0]),
        block matches ContentView::ToolCall { id, name, arguments } ==> carried_calls(
            sent(Role::Assistant, seq![block])[0],
        ) == seq![ToolCallView { id, kind: "function"@, name, arguments }],
        !(block is ToolCall) ==> carried_calls(sent(Role::Assistant, seq![block])[0]).len() == 0,
{
    lemma_sent(Role::Assistant, a);
    lemma_sent(Role::Assistant, b);
    lemma_sent(Role::Assistant, a + b);
    lemma_sent(Role::Assistant, seq![block]);
    lemma_calls_concat(a, b);
    assert(carried_calls(assistant_wire(a)) =~= calls_of(a));
    assert(carried_calls(assistant_wire(b)) =~= calls_of(b));
    assert(carried_calls(assistant_wire(a + b)) =~= calls_of(a + b));
    reveal_with_fuel(calls_of, 2);
    assert(seq![block].drop_last() =~= Seq::<ContentView>::empty());
    if let ContentView::ToolCall { id, name, arguments } = block {
        assert(calls_of(seq![block]) =~= seq![
            ToolCallView { id, kind: "function"@, name, arguments },
        ]);
    }
}

/// An assistant turn's content on the wire is its visible text.
pub proof fn law_the_answer_is_sent_as_it_was(blocks: Seq<ContentView>)
    ensures
        sent(Role::Assistant, blocks)[0]->Assistant_content == flat_text(blocks),
{
    lemma_sent(Role::Assistant, blocks);
}

/// With a tool call, the reasoning blocks are passed back whole: the reasoning of two lists of
/// blocks is that of the one and then that of the other, a lone reasoning block gives its text,
/// and any other lone block gives nothing. Without a tool call, none is.
pub proof fn law_reasoning_is_passed_back_whole(
    a: Seq<ContentView>,
    b: Seq<ContentView>,
    block: ContentView,
    call: ContentView,
)
    requires
        call is ToolCall,
    ensures
        ({
            let passed = |blocks: Seq<ContentView>|
                match sent(
                    Role::Assistant,
                    blocks.push(call),
                )[0]->Assistant_reasoning_content {
                    Some(text) => text,
                    None => Seq::<char>::empty(),
                };
            &&& passed(a + b) == passed(a) + passed(b)
            &&& block matches ContentView::Reasoning { text } ==> passed(seq![block]) == text
            &&& !(block is Reasoning) ==> passed(seq![block]).len() == 0
        }),
        carried_calls(sent(Role::Assistant, a)[0]).len() == 0 ==> sent(
            Role::Assistant,
            a,
        )[0]->Assistant_reasoning_content is None,
{
    let passed = |blocks: Seq<ContentView>|
        match sent(Role::Assistant, blocks.push(call))[0]->Assistant_reasoning_content {
            Some(text) => text,
            None => Seq::<char>::empty(),
        };
    lemma_sent(Role::Assistant, a);
    assert forall|blocks: Seq<ContentView>| #[trigger] passed(blocks) == flat_reasoning(blocks) by {
        lemma_sent(Role::Assistant, blocks.push(call));
        assert(blocks.push(call).drop_last() =~= blocks);
        assert(flat_reasoning(blocks.push(call)) =~= flat_reasoning(blocks));
        assert(passed(blocks) =~= flat_reasoning(blocks));
    }
    lemma_calls_concat(a, b);
    reveal_with_fuel(flat_reasoning, 2);
    assert(seq![block].drop_last() =~= Seq::<ContentView>::empty());
    if let ContentView::Reasoning { text } = block {
        assert(flat_reasoning(seq![block]) =~= text);
    }
}

/// A system message is its visible text.
pub proof fn law_system_messages_are_their_text(blocks: Seq<ContentView>)
    ensures
        sent(Role::System, blocks) == seq![
            WireMessageView::System { content: flat_text(blocks) },
        ],
{
    lemma_sent(Role::System, blocks);
}

/// The tool-role messages of what a user message puts on the wire.
pub open spec fn answered_calls(wire: Seq<WireMessageView>) -> Seq<WireMessageView> {
    wire.filter(|m: WireMessageView| m is Tool)
}

proof fn lemma_results_are_tools(blocks: Seq<ContentView>)
    ensures
        forall|i: int|
            0 <= i < results_of(blocks).len() ==> (#[trigger] results_of(blocks)[i]) is Tool,
    decreases blocks.len(),
{
    if blocks.len() > 0 {
        lemma_results_are_tools(blocks.drop_last());
    }
}

proof fn lemma_all_kept(wire: Seq<WireMessageView>)
    requires
        forall|i: int| 0 <= i < wire.len() ==> (#[trigger] wire[i]) is Tool,
    ensures
        answered_calls(wire) == wire,
    decreases wire.len(),
{
    reveal(Seq::filter);
    if wire.len() > 0 {
        assert(wire[wire.len() - 1] is Tool);
        assert forall|i: int| 0 <= i < wire.drop_last().len() implies (
        #[trigger] wire.drop_last()[i]) is Tool by {
            assert(wire.drop_last()[i] == wire[i]);
        }
        lemma_all_kept(wire.drop_last());
        assert(wire =~= wire.drop_last().push(wire.last()));
    } else {
        assert(answered_calls(wire) =~= wire);
    }
}

proof fn lemma_user_results(blocks: Seq<ContentView>)
    ensures
        answered_calls(sent(Role::User, blocks)) == results_of(blocks),
    decreases blocks.len(),
{
    lemma_sent(Role::User, blocks);
    lemma_results_are_tools(blocks);
    let results = results_of(blocks);
    lemma_all_kept(results);
    let first = WireMessageView::User { content: flat_text(blocks) };
    let p = |m: WireMessageView| m is Tool;
    Seq::filter_distributes_over_add(seq![first], results, p);
    reveal_with_fuel(Seq::filter, 2);
    assert(seq![first].drop_last() =~= Seq::<WireMessageView>::empty());
    assert(seq![first].filter(p) =~= Seq::<WireMessageView>::empty());
    assert((seq![first] + results).filter(p) =~= results);
}

/// Every tool result of a user message goes out as a tool-role message of its own: those of two
/// lists of blocks are those of the one and then those of the other, a lone tool result gives
/// its one message under the id of its call, with the visible text of its output or a
/// placeholder where there is none, and any other lone block gives none.
pub proof fn law_every_tool_result_is_sent(
    a: Seq<ContentView>,
    b: Seq<ContentView>,
    block: ContentView,
)
    ensures
        answered_calls(sent(Role::User, a + b)) == answered_calls(sent(Role::User, a))
            + answered_calls(sent(Role::User, b)),
        block matches ContentView::ToolResult { tool_call_id, is_error, content }
            ==> answered_calls(sent(Role::User, seq![block])) == seq![
            WireMessageView::Tool {
                tool_call_id,
                content: if flat_text(content).len() > 0 {
                    flat_text(content)
                } else {
                    "(no output)"@
                },
            },
        ],
        !(block is ToolResult) ==> answered_calls(sent(Role::User, seq![block])).len() == 0,
{
    lemma_user_results(a);
    lemma_user_results(b);
    lemma_user_results(a + b);
    lemma_user_results(seq![block]);
    lemma_calls_concat(a, b);
    reveal_with_fuel(results_of, 2);
    assert(seq![block].drop_last() =~= Seq::<ContentView>::empty());
    if let ContentView::ToolResult { tool_call_id, is_error, content } = block {
        assert(results_of(seq![block]) =~= seq![
            WireMessageView::Tool { tool_call_id, content: result_text(content) },
        ]);
    }
}

/// The visible text of a user message is sent before its tool results; only where it is empty
/// and there are results is it left out.
pub proof fn law_what_the_user_says_is_sent_first(blocks: Seq<ContentView>)
    ensures
        ({
            let wire = sent(Role::User, blocks);
            let results = answered_calls(wire);
            if flat_text(blocks).len() == 0 && results.len() > 0 {
                wire == results
            } else {
                wire == seq![WireMessageView::User { content: flat_text(blocks) }] + results
            }
        }),
{
    lemma_user_results(blocks);
    lemma_sent(Role::User, blocks);
}

/// The system prompt is the first message of a request, where there is one, and the
/// conversation follows it.
pub proof fn law_the_system_prompt_comes_first(options: GenerateOptions)
    ensures
        ({
            let wire = request_messages(options);
            let conversation = conversation_wire(message_views(options.messages@));
            match options.system {
                Some(system) => {
                    &&& wire[0] == (WireMessageView::System { content: system@ })
                    &&& wire.skip(1) == conversation
                },
                None => wire == conversation,
            }
        }),
{
    let conversation = conversation_wire(message_views(options.messages@));
    if options.system is Some {
        assert(request_messages(options).skip(1) =~= conversation);
    }
}

/// A request asks for what its options say: the model, the messages, the thinking that they
/// resolve to, the limits, the stops, and every tool, in order, with its name, description, and
/// parameters. It always streams and asks for usage.
pub proof fn law_requests_ask_for_what_they_are_told(
    body: WireRequest,
    options: GenerateOptions,
    defaults: RequestDefaults,
)
    requires
        is_request(body, options, defaults),
    ensures
        body.model@ == options.model@,
        body.stream && body.stream_options.include_usage,
        body.max_tokens == options.max_tokens,
        body.temperature_bits == options.temperature_bits,
        (body.stop is Some) == (options.stop is Some),
        body.stop is Some ==> {
            &&& body.stop->0@.len() == options.stop->0@.len()
            &&& forall|k: int|
                0 <= k < body.stop->0@.len() ==> (#[trigger] body.stop->0@[k])@
                    == options.stop->0@[k]@
        },
        (body.tools is Some) == (options.tools is Some && options.tools->0@.len() > 0),
        body.tools is Some ==> {
            &&& body.tools->0@.len() == options.tools->0@.len()
            &&& forall|k: int|
                0 <= k < body.tools->0@.len() ==> {
                    let tool = #[trigger] body.tools->0@[k];
                    let offered = options.tools->0@[k];
                    &&& tool.kind@ == "function"@
                    &&& tool.function.name@ == offered.name@
                    &&& tool.function.description@ == offered.description@
                    &&& member_views(tool.function.parameters@) == member_views(
                        offered.parameters@,
                    )
                }
        },
        body.verify_tee is None,
        wire_messages(body.messages@) == request_messages(options),
        ({
            let resolved = thinking_of(
                options.purpose,
                opt(options.reasoning_effort),
                opt(defaults.thinking),
                opt(defaults.reasoning_effort),
            )->Ok_0;
            &&& body.thinking is Some <==> resolved.thinking is Some
            &&& body.thinking matches Some(t) ==> resolved.thinking == Some(t.kind@)
            &&& opt(body.reasoning_effort) == resolved.reasoning_effort
        }),
{
    if body.stop is Some {
        let told = views(body.stop->0@);
        let named = views(options.stop->0@);
        assert(told == named);
        assert(told.len() == body.stop->0@.len() && named.len() == options.stop->0@.len());
        assert forall|k: int| 0 <= k < body.stop->0@.len() implies (#[trigger] body.stop->0@[k])@
            == options.stop->0@[k]@ by {
            assert(told[k] == named[k]);
        }
    }
    if body.tools is Some {
        let told = tool_views(body.tools)->0;
        let offered = tools_wire(options.tools)->0;
        assert(told.len() == offered.len());
        assert forall|k: int| 0 <= k < body.tools->0@.len() implies ({
            let tool = #[trigger] body.tools->0@[k];
            let offered = options.tools->0@[k];
            &&& tool.kind@ == "function"@
            &&& tool.function.name@ == offered.name@
            &&& tool.function.description@ == offered.description@
            &&& member_views(tool.function.parameters@) == member_views(offered.parameters@)
        }) by {
            assert(told[k] == offered[k]);
        }
    }
}

/// How a call thinks, outside titles. An effort that the call names counts over the deployment's
/// own; `high` and `max` switch thinking on and go out, `off` switches it off, and where nothing
/// is named the deployment's mode stands. An effort that is not known is refused with its name,
/// and so is any but `off` where the deployment has thinking off.
pub proof fn law_efforts_switch_thinking(
    purpose: Option<CallPurpose>,
    requested: Option<Seq<char>>,
    default_thinking: Option<Seq<char>>,
    default_effort: Option<Seq<char>>,
    effort: Seq<char>,
)
    requires
        purpose != Some(CallPurpose::SessionTitle),
    ensures
        ({
            let refused = default_thinking == Some("disabled"@);
            let asked = thinking_of(purpose, Some(effort), default_thinking, default_effort);
            let silent = thinking_of(purpose, None, default_thinking, default_effort);
            &&& effort == "off"@ ==> asked == Ok::<ThinkingView, ErrorView>(
                ThinkingView { thinking: Some("disabled"@), reasoning_effort: None },
            )
            &&& (effort == "high"@ || effort == "max"@) && !refused ==> asked == Ok::<
                ThinkingView,
                ErrorView,
            >(ThinkingView { thinking: Some("enabled"@), reasoning_effort: Some(effort) })
            &&& (effort == "high"@ || effort == "max"@) && refused ==> asked == Err::<
                ThinkingView,
                ErrorView,
            >(
                ErrorView {
                    message: "DeepSeek deployment does not support reasoning effort \""@ + effort
                        + "\""@,
                    code: "UNSUPPORTED_REASONING_EFFORT"@,
                },
            )
            &&& effort != "off"@ && effort != "high"@ && effort != "max"@ ==> asked == Err::<
                ThinkingView,
                ErrorView,
            >(
                ErrorView {
                    message: "DeepSeek does not support reasoning effort \""@ + effort + "\""@,
                    code: "UNSUPPORTED_REASONING_EFFORT"@,
                },
            )
            &&& default_effort == Some(effort) && (effort == "off"@ || effort == "high"@ || effort
                == "max"@) ==> silent == asked
            &&& default_effort is None ==> silent == Ok::<ThinkingView, ErrorView>(
                ThinkingView { thinking: default_thinking, reasoning_effort: None },
            )
            &&& default_effort == Some(effort) && effort != "off"@ && effort != "high"@ && effort
                != "max"@ && !refused ==> silent == Ok::<ThinkingView, ErrorView>(
                ThinkingView { thinking: default_thinking, reasoning_effort: None },
            )
            &&& default_effort == Some(effort) && effort != "off"@ && refused ==> silent == Err::<
                ThinkingView,
                ErrorView,
            >(
                ErrorView {
                    message: "DeepSeek deployment does not support reasoning effort \""@ + effort
                        + "\""@,
                    code: "UNSUPPORTED_REASONING_EFFORT"@,
                },
            )
        }),
{
    reveal_strlit("off");
    reveal_strlit("high");
    reveal_strlit("max");
    assert("off"@.len() == 3 && "high"@.len() == 4);
    assert("off"@[0] == 'o' && "max"@[0] == 'm');
}

/// What a message puts on the wire depends on its role and its blocks alone.
pub proof fn law_messages_go_by_role_and_content(m: MessageView)
    ensures
        conversation_wire(seq![m]) == sent(m.role, m.content),
{
    reveal_with_fuel(conversation_wire, 2);
    assert(seq![m].drop_last() =~= Seq::<MessageView>::empty());
    assert(conversation_wire(seq![m]) =~= message_wire(m));
    lemma_sent(m.role, m.content);
}

/// An image is refused as such, wherever in the conversation it stands, and nothing else is.
pub proof fn law_images_are_refused_anywhere(messages: Seq<MessageView>)
    ensures
        text_only(messages) <==> !(exists|i: int|
            0 <= i < messages.len() && (#[trigger] messages[i]).has_image),
        image_refused() == (ErrorView {
            message: "The DeepSeek chat-completions adapter does not support image content."@,
            code: "UNSUPPORTED_CONTENT"@,
        }),
{
}

}
