//! From streamed chat-completions payloads to stream chunks: one block per kind of
//! text and per tool-call index, in order of first appearance. An empty reasoning delta opens
//! no block. Block ends, usage, and the finish wait for the end of the stream, so no chunk
//! ever follows the finish.

use crate::chat::{
    chunks, BlockType, ChunkView, ContentBlock, ContentView, ErrorView, FinishReason, FinishView,
    LlmError, LlmFailure, StreamChunk, TokenUsage,
};
use crate::text::{head, opt, or_empty, str_eq, take_chars, to_uppercase, uppercase};
use crate::wire::{
    CallDeltaView, ChoiceView, DeltaView, PayloadView, WireChoice, WireChunk, WireDelta,
    WireToolCallDelta, WireUsage,
};
use std::collections::HashMap;
use vstd::prelude::*;
use vstd::string::*;

verus! {

broadcast use vstd::std_specs::hash::group_hash_axioms;

/// The code of a completed answer without any content.
pub const EMPTY_RESPONSE_CODE: &'static str = "EMPTY_RESPONSE";

/// The finish that a wire `finish_reason` stands for. `code` is the code of a reason that is
/// not known.
pub open spec fn finish_with(reason: Seq<char>, code: Seq<char>) -> FinishView {
    if reason == "stop"@ {
        FinishView::Stop
    } else if reason == "tool_calls"@ {
        FinishView::ToolCalls
    } else if reason == "length"@ {
        FinishView::MaxTokens
    } else {
        FinishView::Error { failure: ErrorView { message: "model stopped: "@ + reason, code } }
    }
}

/// The finish that a wire `finish_reason` stands for; the code of one that is not known is the
/// reason in upper case.
pub open spec fn finish_of(reason: Seq<char>) -> FinishView {
    finish_with(reason, uppercase(reason))
}

/// The finish that a wire `finish_reason` stands for, under the code of a reason that is not
/// known.
pub fn finish_under(reason: &str, code: String) -> (r: FinishReason)
    ensures
        r@ == finish_with(reason@, code@),
{
    if str_eq(reason, "stop") {
        FinishReason::Stop
    } else if str_eq(reason, "tool_calls") {
        FinishReason::ToolCalls
    } else if str_eq(reason, "length") {
        FinishReason::MaxTokens
    } else {
        let mut message = "model stopped: ".to_owned();
        message.append(reason);
        FinishReason::Error { failure: LlmFailure { message, code } }
    }
}

/// Maps a wire `finish_reason`; an unknown one becomes an error finish whose code is the
/// reason in upper case.
pub fn map_finish_reason(reason: &str) -> (r: FinishReason)
    ensures
        r@ == finish_of(reason@),
{
    finish_under(reason, to_uppercase(reason))
}

/// The cache hits that a wire count names: the detailed field first, then the flat one.
pub open spec fn cache_hits(usage: WireUsage) -> Option<u64> {
    match usage.prompt_tokens_details {
        Some(details) => match details.cached_tokens {
            Some(n) => Some(n),
            None => usage.prompt_cache_hit_tokens,
        },
        None => usage.prompt_cache_hit_tokens,
    }
}

/// The disjoint counts that a wire count stands for.
pub open spec fn usage_of(usage: WireUsage) -> TokenUsage {
    TokenUsage {
        input_tokens: match cache_hits(usage) {
            Some(n) => if n <= usage.prompt_tokens {
                (usage.prompt_tokens - n) as u64
            } else {
                0
            },
            None => usage.prompt_tokens,
        },
        output_tokens: usage.completion_tokens,
        cache_read_tokens: cache_hits(usage),
        cache_write_tokens: None,
        reasoning_tokens: match usage.completion_tokens_details {
            Some(details) => details.reasoning_tokens,
            None => None,
        },
    }
}

/// Maps wire counts: cache hits are subtracted out of the prompt tokens, never below zero.
pub fn map_usage(usage: &WireUsage) -> (r: TokenUsage)
    ensures
        r == usage_of(*usage),
{
    let detailed = match &usage.prompt_tokens_details {
        Some(details) => details.cached_tokens,
        None => None,
    };
    let cache_read = match detailed {
        Some(n) => Some(n),
        None => usage.prompt_cache_hit_tokens,
    };
    let reasoning = match &usage.completion_tokens_details {
        Some(details) => details.reasoning_tokens,
        None => None,
    };
    TokenUsage {
        input_tokens: usage.prompt_tokens.saturating_sub(cache_read.unwrap_or(0)),
        output_tokens: usage.completion_tokens,
        cache_read_tokens: cache_read,
        cache_write_tokens: None,
        reasoning_tokens: reasoning,
    }
}

/// One block that a stream has opened.
pub struct BlockState {
    pub kind: BlockType,
    pub text: Seq<char>,
    pub call_id: Option<Seq<char>>,
    pub name: Option<Seq<char>>,
}

/// The mathematical state of a [`Translator`]: its blocks in the order in which they were
/// opened, where the text, the reasoning, and each tool call stand among them, and what waits
/// for the end of the stream.
pub struct TranslatorView {
    pub order: Seq<BlockState>,
    pub text_slot: Option<int>,
    pub reasoning_slot: Option<int>,
    pub tool_slots: Map<u64, int>,
    pub finish: Option<FinishView>,
    pub usage: Option<TokenUsage>,
}

/// The state before any payload.
pub open spec fn fresh() -> TranslatorView {
    TranslatorView {
        order: Seq::empty(),
        text_slot: None,
        reasoning_slot: None,
        tool_slots: Map::empty(),
        finish: None,
        usage: None,
    }
}

/// A block that was just opened.
pub open spec fn new_block(kind: BlockType) -> BlockState {
    BlockState { kind, text: Seq::empty(), call_id: None, name: None }
}

/// A later value where there is one, else the earlier one.
pub open spec fn latest(new: Option<Seq<char>>, old: Option<Seq<char>>) -> Option<Seq<char>> {
    match new {
        Some(s) => Some(s),
        None => old,
    }
}

/// The block with `more` behind its text.
pub open spec fn longer(b: BlockState, more: Seq<char>) -> BlockState {
    BlockState { text: b.text + more, ..b }
}

/// The effect of one reasoning delta and the chunks that it gives.
pub open spec fn reasoning_step(t: TranslatorView, delta: Option<Seq<char>>) -> (
    TranslatorView,
    Seq<ChunkView>,
) {
    let text = or_empty(delta);
    if text.len() == 0 {
        (t, Seq::empty())
    } else {
        match t.reasoning_slot {
            Some(i) => (
                TranslatorView { order: t.order.update(i, longer(t.order[i], text)), ..t },
                seq![ChunkView::ReasoningDelta { index: i, text }],
            ),
            None => {
                let i = t.order.len() as int;
                (
                    TranslatorView {
                        order: t.order.push(longer(new_block(BlockType::Reasoning), text)),
                        reasoning_slot: Some(i),
                        ..t
                    },
                    seq![
                        ChunkView::BlockStart { index: i, block_type: BlockType::Reasoning },
                        ChunkView::ReasoningDelta { index: i, text },
                    ],
                )
            },
        }
    }
}

/// The effect of one text delta and the chunks that it gives.
pub open spec fn text_step(t: TranslatorView, delta: Option<Seq<char>>) -> (
    TranslatorView,
    Seq<ChunkView>,
) {
    let text = or_empty(delta);
    if text.len() == 0 {
        (t, Seq::empty())
    } else {
        match t.text_slot {
            Some(i) => (
                TranslatorView { order: t.order.update(i, longer(t.order[i], text)), ..t },
                seq![ChunkView::TextDelta { index: i, text }],
            ),
            None => {
                let i = t.order.len() as int;
                (
                    TranslatorView {
                        order: t.order.push(longer(new_block(BlockType::Text), text)),
                        text_slot: Some(i),
                        ..t
                    },
                    seq![
                        ChunkView::BlockStart { index: i, block_type: BlockType::Text },
                        ChunkView::TextDelta { index: i, text },
                    ],
                )
            },
        }
    }
}

/// A tool-call block after one fragment: the latest id and name that came, and the argument
/// text so far.
pub open spec fn call_block(b: BlockState, c: CallDeltaView) -> BlockState {
    BlockState {
        text: b.text + or_empty(c.arguments),
        call_id: latest(c.id, b.call_id),
        name: latest(c.name, b.name),
        ..b
    }
}

/// The chunk that one tool-call fragment gives, where `b` is the block after it.
pub open spec fn call_chunk(i: int, b: BlockState, c: CallDeltaView) -> ChunkView {
    ChunkView::ToolCallDelta {
        index: i,
        id: or_empty(b.call_id),
        name: b.name,
        arguments_delta: or_empty(c.arguments),
    }
}

/// The effect of one tool-call fragment and the chunks that it gives.
pub open spec fn call_step(t: TranslatorView, c: CallDeltaView) -> (
    TranslatorView,
    Seq<ChunkView>,
) {
    if t.tool_slots.contains_key(c.index) {
        let i = t.tool_slots[c.index];
        let b = call_block(t.order[i], c);
        (TranslatorView { order: t.order.update(i, b), ..t }, seq![call_chunk(i, b, c)])
    } else {
        let i = t.order.len() as int;
        let b = call_block(new_block(BlockType::ToolCall), c);
        (
            TranslatorView {
                order: t.order.push(b),
                tool_slots: t.tool_slots.insert(c.index, i),
                ..t
            },
            seq![
                ChunkView::BlockStart { index: i, block_type: BlockType::ToolCall },
                call_chunk(i, b, c),
            ],
        )
    }
}

/// The effect of a list of tool-call fragments, in order.
pub open spec fn calls_step(t: TranslatorView, calls: Seq<CallDeltaView>) -> (
    TranslatorView,
    Seq<ChunkView>,
)
    decreases calls.len(),
{
    if calls.len() == 0 {
        (t, Seq::empty())
    } else {
        let p = calls_step(t, calls.drop_last());
        let q = call_step(p.0, calls.last());
        (q.0, p.1 + q.1)
    }
}

/// The state with a finish reason noted, where one came.
pub open spec fn noted(t: TranslatorView, reason: Option<Seq<char>>) -> TranslatorView {
    match reason {
        Some(r) => TranslatorView { finish: Some(finish_of(r)), ..t },
        None => t,
    }
}

/// The effect of one delta: reasoning, then text, then tool calls.
pub open spec fn delta_step(t: TranslatorView, d: DeltaView) -> (TranslatorView, Seq<ChunkView>) {
    let a = reasoning_step(t, d.reasoning_content);
    let b = text_step(a.0, d.content);
    let c = calls_step(b.0, d.tool_calls);
    (c.0, a.1 + b.1 + c.1)
}

/// The effect of one choice.
pub open spec fn choice_step(t: TranslatorView, c: ChoiceView) -> (
    TranslatorView,
    Seq<ChunkView>,
) {
    match c.delta {
        Some(d) => {
            let p = delta_step(t, d);
            (noted(p.0, c.finish_reason), p.1)
        },
        None => (noted(t, c.finish_reason), Seq::empty()),
    }
}

/// The effect of a list of choices, in order.
pub open spec fn choices_step(t: TranslatorView, choices: Seq<ChoiceView>) -> (
    TranslatorView,
    Seq<ChunkView>,
)
    decreases choices.len(),
{
    if choices.len() == 0 {
        (t, Seq::empty())
    } else {
        let p = choices_step(t, choices.drop_last());
        let q = choice_step(p.0, choices.last());
        (q.0, p.1 + q.1)
    }
}

/// The effect of one payload: its choices, and its usage in place of an earlier one.
pub open spec fn feed_step(t: TranslatorView, payload: PayloadView) -> (
    TranslatorView,
    Seq<ChunkView>,
) {
    let p = choices_step(t, payload.choices);
    match payload.usage {
        Some(u) => (TranslatorView { usage: Some(usage_of(u)), ..p.0 }, p.1),
        None => p,
    }
}

/// The error of a payload that is no chunk of the wire format.
pub open spec fn malformed(payload: Seq<char>) -> ErrorView {
    ErrorView {
        message: "malformed SSE payload: "@ + head(payload, 120),
        code: "MALFORMED_RESPONSE"@,
    }
}

/// The finished content of a block.
pub open spec fn closed_block(b: BlockState) -> ContentView {
    match b.kind {
        BlockType::Text => ContentView::Text { text: b.text },
        BlockType::Reasoning => ContentView::Reasoning { text: b.text },
        BlockType::ToolCall => ContentView::ToolCall {
            id: or_empty(b.call_id),
            name: or_empty(b.name),
            arguments: b.text,
        },
    }
}

/// The ends of the blocks, in the order in which they were opened.
pub open spec fn block_ends(order: Seq<BlockState>) -> Seq<ChunkView> {
    Seq::new(
        order.len(),
        |i: int| ChunkView::BlockEnd { index: i, block: closed_block(order[i]) },
    )
}

/// How the stream ends: as noted, or with `Stop`; but a stop without any block is an error.
pub open spec fn final_reason(t: TranslatorView) -> FinishView {
    let reason = match t.finish {
        Some(r) => r,
        None => FinishView::Stop,
    };
    if reason is Stop && t.order.len() == 0 {
        FinishView::Error {
            failure: ErrorView {
                message: "model returned a completed response with no content"@,
                code: EMPTY_RESPONSE_CODE@,
            },
        }
    } else {
        reason
    }
}

/// The chunks that close a stream: block ends, usage where it came, and the finish.
pub open spec fn closing(t: TranslatorView) -> Seq<ChunkView> {
    let usage = match t.usage {
        Some(usage) => seq![ChunkView::Usage { usage }],
        None => Seq::empty(),
    };
    block_ends(t.order) + usage + seq![ChunkView::Finish { reason: final_reason(t) }]
}

/// Something to show came: a block was opened or a finish was named.
pub open spec fn progressed(t: TranslatorView) -> bool {
    t.finish is Some || t.order.len() > 0
}

struct OpenBlock {
    index: u64,
    kind: BlockType,
    text: String,
    call_id: Option<String>,
    name: Option<String>,
}

impl OpenBlock {
    spec fn state(self) -> BlockState {
        BlockState {
            kind: self.kind,
            text: self.text@,
            call_id: opt(self.call_id),
            name: opt(self.name),
        }
    }
}

fn or_default(s: &Option<String>) -> (r: String)
    ensures
        r@ == or_empty(opt(*s)),
{
    match s {
        Some(s) => s.clone(),
        None => String::new(),
    }
}

fn close_block(block: &OpenBlock) -> (r: ContentBlock)
    ensures
        r@ == closed_block(block.state()),
{
    match block.kind {
        BlockType::Text => ContentBlock::Text { text: block.text.clone() },
        BlockType::Reasoning => ContentBlock::Reasoning { text: block.text.clone() },
        BlockType::ToolCall => ContentBlock::ToolCall {
            id: or_default(&block.call_id),
            name: or_default(&block.name),
            arguments: block.text.clone(),
        },
    }
}

/// Stateful translator of one stream. Feed it each payload; `done` closes the stream.
pub struct Translator {
    next_index: u64,
    text_slot: Option<usize>,
    reasoning_slot: Option<usize>,
    tool_slots: HashMap<u64, usize>,
    order: Vec<OpenBlock>,
    pending_finish: Option<FinishReason>,
    pending_usage: Option<TokenUsage>,
}

spec fn slot(s: Option<usize>) -> Option<int> {
    match s {
        Some(i) => Some(i as int),
        None => None,
    }
}

impl View for Translator {
    type V = TranslatorView;

    closed spec fn view(&self) -> TranslatorView {
        TranslatorView {
            order: self.order@.map_values(|b: OpenBlock| b.state()),
            text_slot: slot(self.text_slot),
            reasoning_slot: slot(self.reasoning_slot),
            tool_slots: self.tool_slots@.map_values(|i: usize| i as int),
            finish: match self.pending_finish {
                Some(r) => Some(r@),
                None => None,
            },
            usage: self.pending_usage,
        }
    }
}

/// Every slot names a block of its own kind, and every block is named by one slot.
pub open spec fn slots_ok(t: TranslatorView) -> bool {
    &&& t.text_slot matches Some(i) ==> 0 <= i < t.order.len() && t.order[i].kind
        == BlockType::Text
    &&& t.reasoning_slot matches Some(i) ==> 0 <= i < t.order.len() && t.order[i].kind
        == BlockType::Reasoning
    &&& forall|k: u64| #[trigger]
        t.tool_slots.contains_key(k) ==> 0 <= t.tool_slots[k] < t.order.len()
            && t.order[t.tool_slots[k]].kind == BlockType::ToolCall
    &&& forall|j: u64, k: u64|
        j != k && #[trigger] t.tool_slots.contains_key(j) && #[trigger] t.tool_slots.contains_key(k)
            ==> t.tool_slots[j] != t.tool_slots[k]
    &&& forall|i: int|
        0 <= i < t.order.len() ==> match (#[trigger] t.order[i]).kind {
            BlockType::Text => t.text_slot == Some(i),
            BlockType::Reasoning => t.reasoning_slot == Some(i),
            BlockType::ToolCall => exists|k: u64|
                #[trigger] t.tool_slots.contains_key(k) && t.tool_slots[k] == i,
        }
}

impl Translator {
    /// The blocks are numbered from zero as they were opened.
    spec fn numbered(self) -> bool {
        &&& self.next_index == self.order@.len()
        &&& forall|i: int| 0 <= i < self.order@.len() ==> (#[trigger] self.order@[i]).index == i
    }

    /// The slots are in order and the blocks are numbered.
    pub closed spec fn wf(self) -> bool {
        &&& slots_ok(self@)
        &&& self.numbered()
    }

    /// A translator before any payload.
    pub fn new() -> (r: Self)
        ensures
            r.wf(),
            r@ == fresh(),
    {
        let r = Translator {
            next_index: 0,
            text_slot: None,
            reasoning_slot: None,
            tool_slots: HashMap::new(),
            order: Vec::new(),
            pending_finish: None,
            pending_usage: None,
        };
        assert(r@.order =~= fresh().order);
        assert(r@.tool_slots =~= fresh().tool_slots);
        r
    }

    fn open(&mut self, kind: BlockType) -> (r: usize)
        requires
            old(self).numbered(),
        ensures
            final(self).numbered(),
            r == old(self)@.order.len(),
            final(self)@ == (TranslatorView {
                order: old(self)@.order.push(new_block(kind)),
                ..old(self)@
            }),
            r < final(self).order@.len(),
    {
        let slot = self.order.len();
        self.order.push(
            OpenBlock {
                index: self.next_index,
                kind,
                text: String::new(),
                call_id: None,
                name: None,
            },
        );
        self.next_index = self.order.len() as u64;
        assert(self@.order =~= old(self)@.order.push(new_block(kind)));
        slot
    }

    fn extend(&mut self, slot: usize, more: &String)
        requires
            old(self).numbered(),
            slot < old(self)@.order.len(),
        ensures
            final(self).numbered(),
            final(self)@ == (TranslatorView {
                order: old(self)@.order.update(
                    slot as int,
                    longer(old(self)@.order[slot as int], more@),
                ),
                ..old(self)@
            }),
            slot < final(self).order@.len(),
    {
        self.order[slot].text.append(more.as_str());
        assert(self@.order =~= old(self)@.order.update(
            slot as int,
            longer(old(self)@.order[slot as int], more@),
        ));
    }

    fn feed_reasoning(&mut self, delta: &Option<String>, out: &mut Vec<StreamChunk>)
        requires
            old(self).wf(),
        ensures
            final(self).wf(),
            final(self)@ == reasoning_step(old(self)@, opt(*delta)).0,
            chunks(final(out)@) == chunks(old(out)@) + reasoning_step(old(self)@, opt(*delta)).1,
    {
        let ghost before = self@;
        let ghost said = chunks(out@);
        proof {
            lemma_reasoning_keeps(self@, opt(*delta));
        }
        if let Some(text) = delta {
            if !text.as_str().is_empty() {
                let slot = match self.reasoning_slot {
                    Some(slot) => slot,
                    None => {
                        let slot = self.open(BlockType::Reasoning);
                        self.reasoning_slot = Some(slot);
                        out.push(
                            StreamChunk::BlockStart {
                                index: self.order[slot].index,
                                block_type: BlockType::Reasoning,
                            },
                        );
                        slot
                    },
                };
                self.extend(slot, text);
                out.push(
                    StreamChunk::ReasoningDelta {
                        index: self.order[slot].index,
                        text: text.clone(),
                    },
                );
            }
        }
        assert(self@.order =~= reasoning_step(before, opt(*delta)).0.order);
        assert(chunks(out@) =~= said + reasoning_step(before, opt(*delta)).1);
    }

    fn feed_text(&mut self, delta: &Option<String>, out: &mut Vec<StreamChunk>)
        requires
            old(self).wf(),
        ensures
            final(self).wf(),
            final(self)@ == text_step(old(self)@, opt(*delta)).0,
            chunks(final(out)@) == chunks(old(out)@) + text_step(old(self)@, opt(*delta)).1,
    {
        let ghost before = self@;
        let ghost said = chunks(out@);
        proof {
            lemma_text_keeps(self@, opt(*delta));
        }
        if let Some(text) = delta {
            if !text.as_str().is_empty() {
                let slot = match self.text_slot {
                    Some(slot) => slot,
                    None => {
                        let slot = self.open(BlockType::Text);
                        self.text_slot = Some(slot);
                        out.push(
                            StreamChunk::BlockStart {
                                index: self.order[slot].index,
                                block_type: BlockType::Text,
                            },
                        );
                        slot
                    },
                };
                self.extend(slot, text);
                out.push(
                    StreamChunk::TextDelta { index: self.order[slot].index, text: text.clone() },
                );
            }
        }
        assert(self@.order =~= text_step(before, opt(*delta)).0.order);
        assert(chunks(out@) =~= said + text_step(before, opt(*delta)).1);
    }

    fn feed_call(&mut self, call: &WireToolCallDelta, out: &mut Vec<StreamChunk>)
        requires
            old(self).wf(),
        ensures
            final(self).wf(),
            final(self)@ == call_step(old(self)@, call@).0,
            chunks(final(out)@) == chunks(old(out)@) + call_step(old(self)@, call@).1,
    {
        let ghost before = self@;
        let ghost said = chunks(out@);
        proof {
            lemma_call_keeps(self@, call@);
        }
        let slot = match self.tool_slots.get(&call.index) {
            Some(slot) => *slot,
            None => {
                let slot = self.open(BlockType::ToolCall);
                self.tool_slots.insert(call.index, slot);
                assert(self@.tool_slots =~= before.tool_slots.insert(call.index, slot as int));
                out.push(
                    StreamChunk::BlockStart {
                        index: self.order[slot].index,
                        block_type: BlockType::ToolCall,
                    },
                );
                slot
            },
        };
        let ghost opened = self@;
        if let Some(id) = &call.id {
            self.order[slot].call_id = Some(id.clone());
        }
        let fragment = match &call.function {
            Some(function) => {
                if let Some(name) = &function.name {
                    self.order[slot].name = Some(name.clone());
                }
                or_default(&function.arguments)
            },
            None => String::new(),
        };
        self.order[slot].text.append(fragment.as_str());
        assert(self@.order =~= opened.order.update(
            slot as int,
            call_block(opened.order[slot as int], call@),
        ));
        assert(self@.order =~= call_step(before, call@).0.order);
        assert(self@.tool_slots =~= call_step(before, call@).0.tool_slots);
        out.push(
            StreamChunk::ToolCallDelta {
                index: self.order[slot].index,
                id: or_default(&self.order[slot].call_id),
                name: self.order[slot].name.clone(),
                arguments_delta: fragment,
            },
        );
        assert(self.order@[slot as int].state() == call_step(before, call@).0.order[slot as int]);
        assert(chunks(out@) =~= said + call_step(before, call@).1);
    }

    fn note_finish(&mut self, reason: &Option<String>)
        requires
            old(self).wf(),
        ensures
            final(self).wf(),
            final(self)@ == noted(old(self)@, opt(*reason)),
    {
        if let Some(reason) = reason {
            self.pending_finish = Some(map_finish_reason(reason.as_str()));
        }
        assert(self@.order =~= old(self)@.order);
        assert(self@.tool_slots =~= old(self)@.tool_slots);
    }

    fn feed_delta(&mut self, delta: &WireDelta, out: &mut Vec<StreamChunk>)
        requires
            old(self).wf(),
        ensures
            final(self).wf(),
            final(self)@ == delta_step(old(self)@, delta@).0,
            chunks(final(out)@) == chunks(old(out)@) + delta_step(old(self)@, delta@).1,
    {
        let ghost before = self@;
        let ghost said = chunks(out@);
        // Thinking mode sends reasoning before text.
        self.feed_reasoning(&delta.reasoning_content, out);
        self.feed_text(&delta.content, out);
        let ghost mid = self@;
        let ghost told = chunks(out@);
        let ghost calls = delta@.tool_calls;
        let mut i: usize = 0;
        assert(calls.take(0) =~= Seq::<CallDeltaView>::empty());
        while i < delta.tool_calls.len()
            invariant
                self.wf(),
                i <= delta.tool_calls@.len(),
                calls == delta@.tool_calls,
                calls.len() == delta.tool_calls@.len(),
                self@ == calls_step(mid, calls.take(i as int)).0,
                chunks(out@) == told + calls_step(mid, calls.take(i as int)).1,
            decreases delta.tool_calls@.len() - i,
        {
            assert(calls.take(i + 1).drop_last() =~= calls.take(i as int));
            assert(calls.take(i + 1).last() == delta.tool_calls@[i as int]@);
            self.feed_call(&delta.tool_calls[i], out);
            i = i + 1;
            assert(chunks(out@) =~= told + calls_step(mid, calls.take(i as int)).1);
        }
        assert(calls.take(i as int) =~= calls);
        assert(chunks(out@) =~= said + delta_step(before, delta@).1);
    }

    fn feed_choice(&mut self, choice: &WireChoice, out: &mut Vec<StreamChunk>)
        requires
            old(self).wf(),
        ensures
            final(self).wf(),
            final(self)@ == choice_step(old(self)@, choice@).0,
            chunks(final(out)@) == chunks(old(out)@) + choice_step(old(self)@, choice@).1,
    {
        let ghost said = chunks(out@);
        if let Some(delta) = &choice.delta {
            self.feed_delta(delta, out);
        }
        self.note_finish(&choice.finish_reason);
        assert(chunks(out@) =~= said + choice_step(old(self)@, choice@).1);
    }

    /// Translates one payload that is not the end-of-stream sentinel. `chunk` is what the
    /// payload decodes to; a payload that does not decode is an error and changes nothing.
    pub fn feed(&mut self, payload: &str, chunk: Option<&WireChunk>) -> (r: Result<
        Vec<StreamChunk>,
        LlmError,
    >)
        requires
            old(self).wf(),
        ensures
            final(self).wf(),
            match chunk {
                Some(chunk) => {
                    &&& r matches Ok(out) && chunks(out@) == feed_step(old(self)@, chunk@).1
                    &&& final(self)@ == feed_step(old(self)@, chunk@).0
                },
                None => {
                    &&& r matches Err(e) && e@ == malformed(payload@)
                    &&& final(self)@ == old(self)@
                },
            },
    {
        let chunk = match chunk {
            Some(chunk) => chunk,
            None => {
                let mut message = "malformed SSE payload: ".to_owned();
                message.append(take_chars(payload, 120).as_str());
                return Err(LlmError::new(message, "MALFORMED_RESPONSE"));
            },
        };
        let mut out: Vec<StreamChunk> = Vec::new();
        let ghost before = self@;
        let ghost choices = chunk@.choices;
        let mut i: usize = 0;
        assert(choices.take(0) =~= Seq::<ChoiceView>::empty());
        assert(chunks(out@) =~= Seq::<ChunkView>::empty());
        while i < chunk.choices.len()
            invariant
                self.wf(),
                i <= chunk.choices@.len(),
                choices == chunk@.choices,
                choices.len() == chunk.choices@.len(),
                self@ == choices_step(before, choices.take(i as int)).0,
                chunks(out@) == choices_step(before, choices.take(i as int)).1,
            decreases chunk.choices@.len() - i,
        {
            assert(choices.take(i + 1).drop_last() =~= choices.take(i as int));
            assert(choices.take(i + 1).last() == chunk.choices@[i as int]@);
            self.feed_choice(&chunk.choices[i], &mut out);
            i = i + 1;
        }
        assert(choices.take(i as int) =~= choices);
        let ghost after = self@;
        // Usage may ride the finish chunk or a chunk of its own: the latest counts.
        if let Some(usage) = &chunk.usage {
            self.pending_usage = Some(map_usage(usage));
        }
        assert(self@.order =~= after.order);
        assert(self@.tool_slots =~= after.tool_slots);
        Ok(out)
    }

    /// Whether a payload opened a block or named a finish. A clean end of the body can then
    /// be taken for the sentinel.
    pub fn has_terminal_progress(&self) -> (r: bool)
        requires
            self.wf(),
        ensures
            r == progressed(self@),
    {
        self.pending_finish.is_some() || self.order.len() > 0
    }

    /// What the laws of a stream rest on.
    pub proof fn lemma_wf(self)
        requires
            self.wf(),
        ensures
            slots_ok(self@),
    {
    }

    /// Closes the stream: the deferred block ends, the usage, and the finish.
    pub fn done(&mut self) -> (r: Vec<StreamChunk>)
        requires
            old(self).wf(),
        ensures
            final(self).wf(),
            chunks(r@) == closing(old(self)@),
            final(self)@ == (TranslatorView { finish: None, usage: None, ..old(self)@ }),
    {
        let ghost t = self@;
        let mut out: Vec<StreamChunk> = Vec::new();
        let mut i: usize = 0;
        while i < self.order.len()
            invariant
                self.wf(),
                self@ == t,
                i <= self.order@.len(),
                chunks(out@) =~= block_ends(t.order).take(i as int),
            decreases self.order@.len() - i,
        {
            let ghost told = chunks(out@);
            assert(self.order@[i as int].index == i);
            out.push(
                StreamChunk::BlockEnd {
                    index: self.order[i].index,
                    block: close_block(&self.order[i]),
                },
            );
            assert(out@.last()@ == block_ends(t.order)[i as int]);
            assert(chunks(out@) =~= told.push(block_ends(t.order)[i as int]));
            i = i + 1;
        }
        assert(block_ends(t.order).take(i as int) =~= block_ends(t.order));
        let usage = self.pending_usage.take();
        if let Some(usage) = usage {
            out.push(StreamChunk::Usage { usage });
        }
        let reason = match self.pending_finish.take() {
            Some(reason) => reason,
            None => FinishReason::Stop,
        };
        let empty = match &reason {
            FinishReason::Stop => self.order.len() == 0,
            _ => false,
        };
        let reason = if empty {
            FinishReason::Error {
                failure: LlmFailure {
                    message: "model returned a completed response with no content".to_owned(),
                    code: EMPTY_RESPONSE_CODE.to_owned(),
                },
            }
        } else {
            reason
        };
        out.push(StreamChunk::Finish { reason });
        assert(chunks(out@) =~= closing(t));
        assert(self@.order =~= t.order);
        assert(self@.tool_slots =~= t.tool_slots);
        out
    }
}

impl Default for Translator {
    fn default() -> (r: Self)
        ensures
            r.wf(),
            r@ == fresh(),
    {
        Translator::new()
    }
}

/// A reasoning delta keeps the slots in order.
proof fn lemma_reasoning_keeps(t: TranslatorView, delta: Option<Seq<char>>)
    requires
        slots_ok(t),
    ensures
        slots_ok(reasoning_step(t, delta).0),
{
}

/// A text delta keeps the slots in order.
proof fn lemma_text_keeps(t: TranslatorView, delta: Option<Seq<char>>)
    requires
        slots_ok(t),
    ensures
        slots_ok(text_step(t, delta).0),
{
}

/// A tool-call fragment keeps the slots in order.
pub proof fn lemma_call_keeps(t: TranslatorView, c: CallDeltaView)
    requires
        slots_ok(t),
    ensures
        slots_ok(call_step(t, c).0),
{
    let u = call_step(t, c).0;
    assert forall|i: int| 0 <= i < u.order.len() implies match (#[trigger] u.order[i]).kind {
        BlockType::Text => u.text_slot == Some(i),
        BlockType::Reasoning => u.reasoning_slot == Some(i),
        BlockType::ToolCall => exists|k: u64|
            #[trigger] u.tool_slots.contains_key(k) && u.tool_slots[k] == i,
    } by {
        if i < t.order.len() {
            assert(u.order[i].kind == t.order[i].kind);
            if t.order[i].kind == BlockType::ToolCall {
                let k = choose|k: u64|
                    #[trigger] t.tool_slots.contains_key(k) && t.tool_slots[k] == i;
                assert(u.tool_slots.contains_key(k) && u.tool_slots[k] == i);
            }
        } else {
            assert(u.tool_slots.contains_key(c.index) && u.tool_slots[c.index] == i);
        }
    }
}

}
