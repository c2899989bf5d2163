//! Conversation data: messages and their blocks, generation options, errors, and the chunks
//! of a streamed answer.

use crate::json::Json;
use crate::text::opt;
use vstd::prelude::*;

verus! {

#[derive(Debug, Clone, Copy, PartialEq, Eq, Structural)]
pub enum Role {
    System,
    Assistant,
    User,
}

/// One block of a message. `Other` stands for the kinds of block that carry no text, such as
/// images.
#[derive(Debug, PartialEq)]
pub enum ContentBlock {
    Text { text: String },
    Reasoning { text: String },
    ToolCall { id: String, name: String, arguments: String },
    ToolResult { tool_call_id: String, is_error: Option<bool>, content: Vec<ContentBlock> },
    Other,
}

/// The mathematical value of a [`ContentBlock`].
pub enum ContentView {
    Text { text: Seq<char> },
    Reasoning { text: Seq<char> },
    ToolCall { id: Seq<char>, name: Seq<char>, arguments: Seq<char> },
    ToolResult { tool_call_id: Seq<char>, is_error: Option<bool>, content: Seq<ContentView> },
    Other,
}

pub open spec fn content_view(b: ContentBlock) -> ContentView
    decreases b,
{
    match b {
        ContentBlock::Text { text } => ContentView::Text { text: text@ },
        ContentBlock::Reasoning { text } => ContentView::Reasoning { text: text@ },
        ContentBlock::ToolCall { id, name, arguments } => ContentView::ToolCall {
            id: id@,
            name: name@,
            arguments: arguments@,
        },
        ContentBlock::ToolResult { tool_call_id, is_error, content } => ContentView::ToolResult {
            tool_call_id: tool_call_id@,
            is_error,
            content: Seq::new(
                content@.len(),
                |i: int|
                    if 0 <= i < content@.len() {
                        content_view(content@[i])
                    } else {
                        ContentView::Other
                    },
            ),
        },
        ContentBlock::Other => ContentView::Other,
    }
}

impl View for ContentBlock {
    type V = ContentView;

    open spec fn view(&self) -> ContentView {
        content_view(*self)
    }
}

/// The values of a list of blocks.
pub open spec fn contents(blocks: Seq<ContentBlock>) -> Seq<ContentView> {
    blocks.map_values(|b: ContentBlock| b@)
}

/// What a block adds to the visible text.
pub open spec fn block_text(b: ContentView) -> Seq<char> {
    match b {
        ContentView::Text { text } => text,
        _ => Seq::empty(),
    }
}

/// The texts of the text blocks, one after the other.
pub open spec fn flat_text(blocks: Seq<ContentView>) -> Seq<char>
    decreases blocks.len(),
{
    if blocks.len() == 0 {
        Seq::empty()
    } else {
        flat_text(blocks.drop_last()) + block_text(blocks.last())
    }
}

/// Joins the text blocks of a message.
pub fn flatten_text(blocks: &Vec<ContentBlock>) -> (r: String)
    ensures
        r@ == flat_text(contents(blocks@)),
{
    let mut out = String::new();
    let mut i: usize = 0;
    let ghost all = contents(blocks@);
    assert(all.take(0) =~= Seq::<ContentView>::empty());
    while i < blocks.len()
        invariant
            i <= blocks@.len(),
            all == contents(blocks@),
            out@ == flat_text(all.take(i as int)),
        decreases blocks@.len() - i,
    {
        assert(all.take(i + 1).drop_last() =~= all.take(i as int));
        assert(all.take(i + 1).last() == blocks@[i as int]@);
        match &blocks[i] {
            ContentBlock::Text { text } => {
                out.append(text.as_str());
            },
            _ => {
                assert(out@ + Seq::<char>::empty() =~= out@);
            },
        }
        i = i + 1;
    }
    assert(all.take(i as int) =~= all);
    out
}

/// One message of a conversation. `has_image` is the host's answer to whether any block of
/// the content, at any depth, is an image.
#[derive(Debug, PartialEq)]
pub struct Message {
    pub id: String,
    pub role: Role,
    pub content: Vec<ContentBlock>,
    pub has_image: bool,
}

/// The mathematical value of a [`Message`].
pub struct MessageView {
    pub id: Seq<char>,
    pub role: Role,
    pub content: Seq<ContentView>,
    pub has_image: bool,
}

impl View for Message {
    type V = MessageView;

    open spec fn view(&self) -> MessageView {
        MessageView {
            id: self.id@,
            role: self.role,
            content: contents(self.content@),
            has_image: self.has_image,
        }
    }
}

/// The values of a list of messages.
pub open spec fn message_views(messages: Seq<Message>) -> Seq<MessageView> {
    messages.map_values(|m: Message| m@)
}

/// What a generation call is for.
#[derive(Debug, Clone, Copy, PartialEq, Eq, Structural)]
pub enum CallPurpose {
    SessionTitle,
    Compaction,
    Other,
}

/// A tool offered to the model; `parameters` are the members of its JSON Schema object.
pub struct ToolSchema {
    pub name: String,
    pub description: String,
    pub parameters: Vec<(String, Json)>,
}

/// One generation request. `temperature_bits` is the IEEE 754 double of the temperature.
pub struct GenerateOptions {
    pub model: String,
    pub system: Option<String>,
    pub messages: Vec<Message>,
    pub tools: Option<Vec<ToolSchema>>,
    pub reasoning_effort: Option<String>,
    pub temperature_bits: Option<u64>,
    pub max_tokens: Option<u64>,
    pub stop: Option<Vec<String>>,
    pub purpose: Option<CallPurpose>,
    pub session_id: Option<String>,
}

/// A failed call: what to show and a stable code.
#[derive(Debug, PartialEq)]
pub struct LlmError {
    pub message: String,
    pub code: String,
}

/// The mathematical value of an error or failure.
pub struct ErrorView {
    pub message: Seq<char>,
    pub code: Seq<char>,
}

impl View for LlmError {
    type V = ErrorView;

    open spec fn view(&self) -> ErrorView {
        ErrorView { message: self.message@, code: self.code@ }
    }
}

impl LlmError {
    pub fn new(message: String, code: &str) -> (r: LlmError)
        ensures
            r@ == (ErrorView { message: message@, code: code@ }),
    {
        LlmError { message, code: code.to_owned() }
    }
}

/// Why a model stopped with an error.
#[derive(Debug, PartialEq)]
pub struct LlmFailure {
    pub message: String,
    pub code: String,
}

impl View for LlmFailure {
    type V = ErrorView;

    open spec fn view(&self) -> ErrorView {
        ErrorView { message: self.message@, code: self.code@ }
    }
}

/// How an answer ended.
#[derive(Debug, PartialEq)]
pub enum FinishReason {
    Stop,
    ToolCalls,
    MaxTokens,
    Error { failure: LlmFailure },
}

pub enum FinishView {
    Stop,
    ToolCalls,
    MaxTokens,
    Error { failure: ErrorView },
}

impl View for FinishReason {
    type V = FinishView;

    open spec fn view(&self) -> FinishView {
        match self {
            FinishReason::Stop => FinishView::Stop,
            FinishReason::ToolCalls => FinishView::ToolCalls,
            FinishReason::MaxTokens => FinishView::MaxTokens,
            FinishReason::Error { failure } => FinishView::Error { failure: failure@ },
        }
    }
}

/// Token counts of one call; the counts are disjoint.
#[derive(Debug, Clone, Copy, PartialEq, Eq)]
pub struct TokenUsage {
    pub input_tokens: u64,
    pub output_tokens: u64,
    pub cache_read_tokens: Option<u64>,
    pub cache_write_tokens: Option<u64>,
    pub reasoning_tokens: Option<u64>,
}

#[derive(Debug, Clone, Copy, PartialEq, Eq, Structural)]
pub enum BlockType {
    Text,
    Reasoning,
    ToolCall,
}

/// One chunk of a streamed answer.
#[derive(Debug, PartialEq)]
pub enum StreamChunk {
    BlockStart { index: u64, block_type: BlockType },
    TextDelta { index: u64, text: String },
    ReasoningDelta { index: u64, text: String },
    ToolCallDelta { index: u64, id: String, name: Option<String>, arguments_delta: String },
    BlockEnd { index: u64, block: ContentBlock },
    Usage { usage: TokenUsage },
    Finish { reason: FinishReason },
}

pub enum ChunkView {
    BlockStart { index: int, block_type: BlockType },
    TextDelta { index: int, text: Seq<char> },
    ReasoningDelta { index: int, text: Seq<char> },
    ToolCallDelta {
        index: int,
        id: Seq<char>,
        name: Option<Seq<char>>,
        arguments_delta: Seq<char>,
    },
    BlockEnd { index: int, block: ContentView },
    Usage { usage: TokenUsage },
    Finish { reason: FinishView },
}

impl View for StreamChunk {
    type V = ChunkView;

    open spec fn view(&self) -> ChunkView {
        match self {
            StreamChunk::BlockStart { index, block_type } => ChunkView::BlockStart {
                index: *index as int,
                block_type: *block_type,
            },
            StreamChunk::TextDelta { index, text } => ChunkView::TextDelta {
                index: *index as int,
                text: text@,
            },
            StreamChunk::ReasoningDelta { index, text } => ChunkView::ReasoningDelta {
                index: *index as int,
                text: text@,
            },
            StreamChunk::ToolCallDelta { index, id, name, arguments_delta } =>
                ChunkView::ToolCallDelta {
                index: *index as int,
                id: id@,
                name: opt(*name),
                arguments_delta: arguments_delta@,
            },
            StreamChunk::BlockEnd { index, block } => ChunkView::BlockEnd {
                index: *index as int,
                block: block@,
            },
            StreamChunk::Usage { usage } => ChunkView::Usage { usage: *usage },
            StreamChunk::Finish { reason } => ChunkView::Finish { reason: reason@ },
        }
    }
}

/// The values of a list of chunks.
pub open spec fn chunks(s: Seq<StreamChunk>) -> Seq<ChunkView> {
    s.map_values(|c: StreamChunk| c@)
}

/// The visible text of a message is that of its text blocks, in order and as it stands; no
/// other block adds to it.
pub proof fn law_visible_text_is_the_text_blocks(
    a: Seq<ContentView>,
    b: Seq<ContentView>,
    block: ContentView,
)
    ensures
        flat_text(a + b) == flat_text(a) + flat_text(b),
        block matches ContentView::Text { text } ==> flat_text(seq![block]) == text,
        !(block is Text) ==> flat_text(seq![block]).len() == 0,
    decreases b.len(),
{
    reveal_with_fuel(flat_text, 2);
    assert(seq![block].drop_last() =~= Seq::<ContentView>::empty());
    if let ContentView::Text { text } = block {
        assert(flat_text(seq![block]) =~= text);
    }
    if b.len() == 0 {
        assert(a + b =~= a);
        assert(flat_text(a) + flat_text(b) =~= flat_text(a));
    } else {
        law_visible_text_is_the_text_blocks(a, b.drop_last(), block);
        assert((a + b).drop_last() =~= a + b.drop_last());
        assert(flat_text(a + b) =~= flat_text(a) + flat_text(b));
    }
}

/// Blocks stand for what they hold, and messages for their role and their blocks, one for one.
pub proof fn law_blocks_stand_for_what_they_hold(m: Message, i: int, k: int)
    requires
        0 <= i < m.content@.len(),
    ensures
        m@.role == m.role,
        m@.has_image == m.has_image,
        m@.content.len() == m.content@.len(),
        ({
            let held = m.content@[i];
            let told = m@.content[i];
            &&& held matches ContentBlock::Text { text } ==> told == (ContentView::Text {
                text: text@,
            })
            &&& held matches ContentBlock::Reasoning { text } ==> told == (ContentView::Reasoning {
                text: text@,
            })
            &&& held matches ContentBlock::ToolCall { id, name, arguments } ==> told == (
            ContentView::ToolCall { id: id@, name: name@, arguments: arguments@ })
            &&& held matches ContentBlock::ToolResult { tool_call_id, is_error, content } ==> {
                &&& told->ToolResult_tool_call_id == tool_call_id@
                &&& told->ToolResult_is_error == is_error
                &&& told->ToolResult_content.len() == content@.len()
                &&& 0 <= k < content@.len() ==> told->ToolResult_content[k] == content@[k]@
            }
            &&& held is Other ==> told is Other
        }),
{
}

/// Chunks stand for what they say, and failures for their message and code.
pub proof fn law_chunks_stand_for_what_they_say(c: StreamChunk, e: LlmError, f: LlmFailure)
    ensures
        c matches StreamChunk::TextDelta { index, text } ==> c@ == (ChunkView::TextDelta {
            index: index as int,
            text: text@,
        }),
        c matches StreamChunk::ReasoningDelta { index, text } ==> c@ == (
        ChunkView::ReasoningDelta { index: index as int, text: text@ }),
        c matches StreamChunk::ToolCallDelta { index, id, name, arguments_delta } ==> {
            &&& c@->ToolCallDelta_index == index
            &&& c@->ToolCallDelta_id == id@
            &&& c@->ToolCallDelta_name == opt(name)
            &&& c@->ToolCallDelta_arguments_delta == arguments_delta@
        },
        c matches StreamChunk::BlockStart { index, block_type } ==> c@ == (ChunkView::BlockStart {
            index: index as int,
            block_type,
        }),
        c matches StreamChunk::BlockEnd { index, block } ==> c@ == (ChunkView::BlockEnd {
            index: index as int,
            block: block@,
        }),
        c matches StreamChunk::Usage { usage } ==> c@ == (ChunkView::Usage { usage }),
        c matches StreamChunk::Finish { reason } ==> {
            &&& c@->Finish_reason is Stop <==> reason is Stop
            &&& c@->Finish_reason is ToolCalls <==> reason is ToolCalls
            &&& c@->Finish_reason is MaxTokens <==> reason is MaxTokens
            &&& reason matches FinishReason::Error { failure } ==> c@->Finish_reason == (
            FinishView::Error { failure: failure@ })
        },
        e@.message == e.message@ && e@.code == e.code@,
        f@.message == f.message@ && f@.code == f.code@,
{
}

/// Chunks are handed on one for one.
pub proof fn law_chunks_are_one_for_one(s: Seq<StreamChunk>, i: int)
    ensures
        chunks(s).len() == s.len(),
        0 <= i < s.len() ==> chunks(s)[i] == s[i]@,
{
}

}
