//! What holds of every translated stream.

use crate::chat::{BlockType, ChunkView, ContentView, ErrorView, FinishView};
use crate::text::{or_empty, uppercase};
use crate::translate::{
    block_ends, cache_hits, call_step, calls_step, choice_step, choices_step, closing, feed_step,
    final_reason, finish_of, finish_with, fresh, malformed, noted, progressed, reasoning_step,
    slots_ok, text_step, usage_of, TranslatorView,
};
use crate::wire::{CallDeltaView, ChoiceView, PayloadView, WireUsage};
use vstd::prelude::*;

verus! {

/// What a chunk adds to the text of block `i`.
pub open spec fn said(c: ChunkView, i: int) -> Seq<char> {
    match c {
        ChunkView::TextDelta { index, text } if index == i => text,
        ChunkView::ReasoningDelta { index, text } if index == i => text,
        ChunkView::ToolCallDelta { index, id, name, arguments_delta } if index == i =>
            arguments_delta,
        _ => Seq::empty(),
    }
}

/// The deltas of block `i`, one after the other.
pub open spec fn spoken(out: Seq<ChunkView>, i: int) -> Seq<char>
    decreases out.len(),
{
    if out.len() == 0 {
        Seq::empty()
    } else {
        spoken(out.drop_last(), i) + said(out.last(), i)
    }
}

/// The block starts, in order.
pub open spec fn starts(out: Seq<ChunkView>) -> Seq<(int, BlockType)>
    decreases out.len(),
{
    if out.len() == 0 {
        Seq::empty()
    } else {
        match out.last() {
            ChunkView::BlockStart { index, block_type } => starts(out.drop_last()).push(
                (index, block_type),
            ),
            _ => starts(out.drop_last()),
        }
    }
}

/// The block that a delta belongs to.
pub open spec fn delta_index(c: ChunkView) -> Option<int> {
    match c {
        ChunkView::TextDelta { index, text } => Some(index),
        ChunkView::ReasoningDelta { index, text } => Some(index),
        ChunkView::ToolCallDelta { index, id, name, arguments_delta } => Some(index),
        _ => None,
    }
}

/// The kind of block that a delta belongs to.
pub open spec fn delta_kind(c: ChunkView) -> Option<BlockType> {
    match c {
        ChunkView::TextDelta { index, text } => Some(BlockType::Text),
        ChunkView::ReasoningDelta { index, text } => Some(BlockType::Reasoning),
        ChunkView::ToolCallDelta { index, id, name, arguments_delta } => Some(BlockType::ToolCall),
        _ => None,
    }
}

/// A block start or a delta.
pub open spec fn is_progress(c: ChunkView) -> bool {
    c is BlockStart || delta_index(c) is Some
}

/// The text of block `i`; empty where there is no such block.
pub open spec fn text_at(t: TranslatorView, i: int) -> Seq<char> {
    if 0 <= i < t.order.len() {
        t.order[i].text
    } else {
        Seq::empty()
    }
}

/// Each delta belongs to a block that was open before it: one of the first `n`, or one that an
/// earlier chunk started.
pub open spec fn deltas_follow_starts(n: int, out: Seq<ChunkView>) -> bool {
    forall|k: int|
        0 <= k < out.len() ==> (delta_index(#[trigger] out[k]) matches Some(i) ==> 0 <= i < n
            + starts(out.take(k)).len())
}

/// `out` tells exactly how `t` grew into `u`: the new blocks are started in order of their
/// numbers, every block's text grew by its deltas, which are of its kind, and nothing else is
/// said.
pub open spec fn grows(t: TranslatorView, u: TranslatorView, out: Seq<ChunkView>) -> bool {
    &&& t.order.len() <= u.order.len()
    &&& forall|i: int|
        0 <= i < t.order.len() ==> (#[trigger] u.order[i]).kind == t.order[i].kind
    &&& forall|i: int| #[trigger] text_at(u, i) == text_at(t, i) + spoken(out, i)
    &&& starts(out) == Seq::new(
        (u.order.len() - t.order.len()) as nat,
        |j: int| (t.order.len() + j, u.order[t.order.len() + j].kind),
    )
    &&& forall|k: int| 0 <= k < out.len() ==> is_progress(#[trigger] out[k])
    &&& deltas_follow_starts(t.order.len() as int, out)
    &&& forall|k: int|
        0 <= k < out.len() ==> (delta_index(#[trigger] out[k]) matches Some(i) ==> 0 <= i
            < u.order.len() && delta_kind(out[k]) == Some(u.order[i].kind))
}

proof fn lemma_concat(a: Seq<ChunkView>, b: Seq<ChunkView>)
    ensures
        starts(a + b) == starts(a) + starts(b),
        forall|i: int| #[trigger] spoken(a + b, i) == spoken(a, i) + spoken(b, i),
    decreases b.len(),
{
    if b.len() == 0 {
        assert(a + b =~= a);
        assert(starts(a) + starts(b) =~= starts(a));
        assert forall|i: int| #[trigger] spoken(a + b, i) == spoken(a, i) + spoken(b, i) by {
            assert(spoken(a, i) + spoken(b, i) =~= spoken(a, i));
        }
    } else {
        lemma_concat(a, b.drop_last());
        assert((a + b).drop_last() =~= a + b.drop_last());
        assert((a + b).last() == b.last());
        assert(starts(a + b) =~= starts(a) + starts(b));
        assert forall|i: int| #[trigger] spoken(a + b, i) == spoken(a, i) + spoken(b, i) by {
            assert(spoken(a + b.drop_last(), i) == spoken(a, i) + spoken(b.drop_last(), i));
            assert(spoken(a + b, i) =~= spoken(a, i) + spoken(b, i));
        }
    }
}

proof fn lemma_grows_compose(
    t: TranslatorView,
    u: TranslatorView,
    v: TranslatorView,
    a: Seq<ChunkView>,
    b: Seq<ChunkView>,
)
    requires
        grows(t, u, a),
        grows(u, v, b),
    ensures
        grows(t, v, a + b),
{
    lemma_concat(a, b);
    let out = a + b;
    let n = t.order.len() as int;
    assert forall|i: int| #[trigger] text_at(v, i) == text_at(t, i) + spoken(out, i) by {
        assert(text_at(u, i) == text_at(t, i) + spoken(a, i));
        assert(text_at(v, i) =~= text_at(t, i) + spoken(out, i));
    }
    assert forall|i: int| 0 <= i < t.order.len() implies (#[trigger] v.order[i]).kind
        == t.order[i].kind by {
        assert(u.order[i].kind == t.order[i].kind);
    }
    let all = Seq::new(
        (v.order.len() - t.order.len()) as nat,
        |j: int| (t.order.len() + j, v.order[t.order.len() + j].kind),
    );
    assert(starts(out) =~= all) by {
        assert forall|j: int| 0 <= j < all.len() implies starts(out)[j] == all[j] by {
            if j < starts(a).len() {
                assert(starts(a)[j] == (n + j, u.order[n + j].kind));
                assert(v.order[n + j].kind == u.order[n + j].kind);
            } else {
                let m = u.order.len() as int;
                assert(starts(b)[j - starts(a).len()] == (n + j, v.order[n + j].kind));
            }
        }
    }
    assert forall|k: int| 0 <= k < out.len() implies is_progress(#[trigger] out[k]) by {
        if k < a.len() {
            assert(out[k] == a[k]);
        } else {
            assert(out[k] == b[k - a.len()]);
        }
    }
    assert forall|k: int| 0 <= k < out.len() implies (delta_index(#[trigger] out[k]) matches Some(
        i,
    ) ==> 0 <= i < v.order.len() && delta_kind(out[k]) == Some(v.order[i].kind)) by {
        if k < a.len() {
            assert(out[k] == a[k]);
            if let Some(i) = delta_index(a[k]) {
                assert(v.order[i].kind == u.order[i].kind);
            }
        } else {
            assert(out[k] == b[k - a.len()]);
        }
    }
    assert forall|k: int| 0 <= k < out.len() implies (delta_index(#[trigger] out[k]) matches Some(
        i,
    ) ==> 0 <= i < n + starts(out.take(k)).len()) by {
        if k < a.len() {
            assert(out[k] == a[k]);
            assert(out.take(k) =~= a.take(k));
        } else {
            let m = k - a.len();
            assert(out[k] == b[m]);
            assert(out.take(k) =~= a + b.take(m));
            lemma_concat(a, b.take(m));
        }
    }
}

proof fn lemma_grows_nothing(t: TranslatorView, u: TranslatorView)
    requires
        t.order == u.order,
    ensures
        grows(t, u, Seq::empty()),
{
    let out = Seq::<ChunkView>::empty();
    assert forall|i: int| #[trigger] text_at(u, i) == text_at(t, i) + spoken(out, i) by {
        assert(text_at(u, i) =~= text_at(t, i) + spoken(out, i));
    }
    assert(starts(out) =~= Seq::new(0, |j: int| (t.order.len() + j, u.order[t.order.len() + j].kind)));
}

/// One delta to a block that is there.
proof fn lemma_grows_delta(t: TranslatorView, u: TranslatorView, i: int, c: ChunkView)
    requires
        0 <= i < t.order.len(),
        u.order.len() == t.order.len(),
        delta_index(c) == Some(i),
        delta_kind(c) == Some(t.order[i].kind),
        u.order[i].kind == t.order[i].kind,
        u.order[i].text == t.order[i].text + said(c, i),
        forall|j: int| 0 <= j < t.order.len() && j != i ==> #[trigger] u.order[j] == t.order[j],
    ensures
        grows(t, u, seq![c]),
{
    let out = seq![c];
    assert(out.drop_last() =~= Seq::<ChunkView>::empty());
    assert forall|j: int| #[trigger] text_at(u, j) == text_at(t, j) + spoken(out, j) by {
        assert(spoken(out.drop_last(), j) =~= Seq::<char>::empty());
        assert(spoken(out, j) =~= said(c, j));
        if j != i {
            assert(said(c, j) =~= Seq::<char>::empty());
            if 0 <= j < t.order.len() {
                assert(u.order[j] == t.order[j]);
            }
        }
        assert(text_at(u, j) =~= text_at(t, j) + spoken(out, j));
    }
    assert(starts(out.drop_last()) =~= Seq::<(int, BlockType)>::empty());
    assert(starts(out) =~= Seq::new(0, |j: int| (t.order.len() + j, u.order[t.order.len() + j].kind)));
    assert(out.take(0) =~= Seq::<ChunkView>::empty());
}

/// A new block and its first delta.
proof fn lemma_grows_open(t: TranslatorView, u: TranslatorView, c: ChunkView)
    requires
        u.order.len() == t.order.len() + 1,
        delta_index(c) == Some(t.order.len() as int),
        delta_kind(c) == Some(u.order.last().kind),
        u.order.last().text == said(c, t.order.len() as int),
        forall|j: int| 0 <= j < t.order.len() ==> #[trigger] u.order[j] == t.order[j],
    ensures
        grows(
            t,
            u,
            seq![
                ChunkView::BlockStart {
                    index: t.order.len() as int,
                    block_type: u.order.last().kind,
                },
                c,
            ],
        ),
{
    let n = t.order.len() as int;
    let start = ChunkView::BlockStart { index: n, block_type: u.order.last().kind };
    let out = seq![start, c];
    assert(out.drop_last() =~= seq![start]);
    assert(seq![start].drop_last() =~= Seq::<ChunkView>::empty());
    assert forall|j: int| #[trigger] text_at(u, j) == text_at(t, j) + spoken(out, j) by {
        assert(spoken(seq![start].drop_last(), j) =~= Seq::<char>::empty());
        assert(spoken(seq![start], j) =~= Seq::<char>::empty());
        assert(spoken(out, j) =~= said(c, j));
        if j != n {
            assert(said(c, j) =~= Seq::<char>::empty());
            if 0 <= j < t.order.len() {
                assert(u.order[j] == t.order[j]);
            }
        }
        assert(text_at(u, j) =~= text_at(t, j) + spoken(out, j));
    }
    assert(starts(seq![start].drop_last()) =~= Seq::<(int, BlockType)>::empty());
    assert(starts(seq![start]) =~= seq![(n, u.order.last().kind)]);
    assert(starts(out) =~= Seq::new(1, |j: int| (n + j, u.order[n + j].kind)));
    assert(out.take(0) =~= Seq::<ChunkView>::empty());
    assert(out.take(1) =~= seq![start]);
}

proof fn lemma_reasoning_grows(t: TranslatorView, d: Option<Seq<char>>)
    requires
        slots_ok(t),
    ensures
        grows(t, reasoning_step(t, d).0, reasoning_step(t, d).1),
        slots_ok(reasoning_step(t, d).0),
{
    let (u, out) = reasoning_step(t, d);
    if u == t && out.len() == 0 {
        assert(out =~= Seq::<ChunkView>::empty());
        lemma_grows_nothing(t, u);
    } else {
        match t.reasoning_slot {
            Some(i) => {
                lemma_grows_delta(t, u, i, out[0]);
                assert(out =~= seq![out[0]]);
            },
            None => {
                assert(u.order.last().text =~= said(out[1], t.order.len() as int));
                lemma_grows_open(t, u, out[1]);
            },
        }
    }
}

proof fn lemma_text_grows(t: TranslatorView, d: Option<Seq<char>>)
    requires
        slots_ok(t),
    ensures
        grows(t, text_step(t, d).0, text_step(t, d).1),
        slots_ok(text_step(t, d).0),
{
    let (u, out) = text_step(t, d);
    if u == t && out.len() == 0 {
        assert(out =~= Seq::<ChunkView>::empty());
        lemma_grows_nothing(t, u);
    } else {
        match t.text_slot {
            Some(i) => {
                lemma_grows_delta(t, u, i, out[0]);
                assert(out =~= seq![out[0]]);
            },
            None => {
                assert(u.order.last().text =~= said(out[1], t.order.len() as int));
                lemma_grows_open(t, u, out[1]);
            },
        }
    }
}

proof fn lemma_call_grows(t: TranslatorView, c: CallDeltaView)
    requires
        slots_ok(t),
    ensures
        grows(t, call_step(t, c).0, call_step(t, c).1),
        slots_ok(call_step(t, c).0),
{
    crate::translate::lemma_call_keeps(t, c);
    let (u, out) = call_step(t, c);
    if t.tool_slots.contains_key(c.index) {
        lemma_grows_delta(t, u, t.tool_slots[c.index], out[0]);
        assert(out =~= seq![out[0]]);
    } else {
        assert(u.order.last().text =~= said(out[1], t.order.len() as int));
        lemma_grows_open(t, u, out[1]);
    }
}

proof fn lemma_calls_grow(t: TranslatorView, calls: Seq<CallDeltaView>)
    requires
        slots_ok(t),
    ensures
        grows(t, calls_step(t, calls).0, calls_step(t, calls).1),
        slots_ok(calls_step(t, calls).0),
    decreases calls.len(),
{
    if calls.len() == 0 {
        lemma_grows_nothing(t, t);
    } else {
        lemma_calls_grow(t, calls.drop_last());
        let p = calls_step(t, calls.drop_last());
        lemma_call_grows(p.0, calls.last());
        let q = call_step(p.0, calls.last());
        lemma_grows_compose(t, p.0, q.0, p.1, q.1);
    }
}

proof fn lemma_same_blocks(t: TranslatorView, u: TranslatorView, v: TranslatorView, out: Seq<ChunkView>)
    requires
        grows(t, u, out),
        v.order == u.order,
    ensures
        grows(t, v, out),
{
    assert forall|i: int| #[trigger] text_at(v, i) == text_at(t, i) + spoken(out, i) by {
        assert(text_at(v, i) == text_at(u, i));
    }
}

proof fn lemma_choice_grows(t: TranslatorView, c: ChoiceView)
    requires
        slots_ok(t),
    ensures
        grows(t, choice_step(t, c).0, choice_step(t, c).1),
        slots_ok(choice_step(t, c).0),
{
    match c.delta {
        Some(d) => {
            lemma_reasoning_grows(t, d.reasoning_content);
            let a = reasoning_step(t, d.reasoning_content);
            lemma_text_grows(a.0, d.content);
            let b = text_step(a.0, d.content);
            lemma_grows_compose(t, a.0, b.0, a.1, b.1);
            lemma_calls_grow(b.0, d.tool_calls);
            let e = calls_step(b.0, d.tool_calls);
            lemma_grows_compose(t, b.0, e.0, a.1 + b.1, e.1);
            lemma_same_blocks(t, e.0, noted(e.0, c.finish_reason), a.1 + b.1 + e.1);
        },
        None => {
            lemma_grows_nothing(t, noted(t, c.finish_reason));
        },
    }
}

proof fn lemma_choices_grow(t: TranslatorView, choices: Seq<ChoiceView>)
    requires
        slots_ok(t),
    ensures
        grows(t, choices_step(t, choices).0, choices_step(t, choices).1),
        slots_ok(choices_step(t, choices).0),
    decreases choices.len(),
{
    if choices.len() == 0 {
        lemma_grows_nothing(t, t);
    } else {
        lemma_choices_grow(t, choices.drop_last());
        let p = choices_step(t, choices.drop_last());
        lemma_choice_grows(p.0, choices.last());
        let q = choice_step(p.0, choices.last());
        lemma_grows_compose(t, p.0, q.0, p.1, q.1);
    }
}

/// A payload says exactly how the blocks grew: it starts the new blocks in order of their
/// numbers, gives no delta before its block's start, and gives no block end, usage, or finish.
pub proof fn law_feed_tells_growth(t: TranslatorView, payload: PayloadView)
    requires
        slots_ok(t),
    ensures
        grows(t, feed_step(t, payload).0, feed_step(t, payload).1),
        slots_ok(feed_step(t, payload).0),
{
    lemma_choices_grow(t, payload.choices);
    let p = choices_step(t, payload.choices);
    lemma_same_blocks(t, p.0, feed_step(t, payload).0, p.1);
}

/// The state after a list of payloads and all the chunks that they gave.
pub open spec fn run(payloads: Seq<PayloadView>) -> (TranslatorView, Seq<ChunkView>)
    decreases payloads.len(),
{
    if payloads.len() == 0 {
        (fresh(), Seq::empty())
    } else {
        let p = run(payloads.drop_last());
        let q = feed_step(p.0, payloads.last());
        (q.0, p.1 + q.1)
    }
}

proof fn lemma_run_grows(payloads: Seq<PayloadView>)
    ensures
        grows(fresh(), run(payloads).0, run(payloads).1),
        slots_ok(run(payloads).0),
    decreases payloads.len(),
{
    if payloads.len() == 0 {
        lemma_grows_nothing(fresh(), fresh());
    } else {
        lemma_run_grows(payloads.drop_last());
        let p = run(payloads.drop_last());
        law_feed_tells_growth(p.0, payloads.last());
        let q = feed_step(p.0, payloads.last());
        lemma_grows_compose(fresh(), p.0, q.0, p.1, q.1);
    }
}

/// The text that a finished block carries.
pub open spec fn carried(c: ContentView) -> Seq<char> {
    match c {
        ContentView::Text { text } => text,
        ContentView::Reasoning { text } => text,
        ContentView::ToolCall { id, name, arguments } => arguments,
        _ => Seq::empty(),
    }
}

/// Over a whole stream the blocks are numbered from zero in the order in which they were
/// started, each is started once, and each ends with exactly its deltas put together.
pub proof fn law_blocks_end_with_their_deltas(payloads: Seq<PayloadView>)
    ensures
        ({
            let (t, out) = run(payloads);
            let ends = block_ends(t.order);
            &&& starts(out) == Seq::new(t.order.len(), |i: int| (i, t.order[i].kind))
            &&& deltas_follow_starts(0, out)
            &&& forall|k: int| 0 <= k < out.len() ==> is_progress(#[trigger] out[k])
            &&& closing(t).take(t.order.len() as int) == ends
            &&& forall|i: int|
                0 <= i < t.order.len() ==> {
                    &&& (#[trigger] ends[i])->BlockEnd_index == i
                    &&& carried(ends[i]->BlockEnd_block) == spoken(out, i)
                }
        }),
{
    lemma_run_grows(payloads);
    let (t, out) = run(payloads);
    let ends = block_ends(t.order);
    assert(starts(out) =~= Seq::new(t.order.len(), |i: int| (i, t.order[i].kind)));
    assert(closing(t).take(t.order.len() as int) =~= ends);
    assert forall|i: int| 0 <= i < t.order.len() implies (#[trigger] ends[i])->BlockEnd_index == i
        && carried(ends[i]->BlockEnd_block) == spoken(out, i) by {
        assert(text_at(t, i) == text_at(fresh(), i) + spoken(out, i));
        assert(text_at(t, i) =~= spoken(out, i));
    }
}

proof fn lemma_starts_prefix(out: Seq<ChunkView>, k: int)
    requires
        0 <= k <= out.len(),
    ensures
        starts(out.take(k)).len() <= starts(out).len(),
        forall|i: int|
            0 <= i < starts(out.take(k)).len() ==> #[trigger] starts(out.take(k))[i]
                == starts(out)[i],
{
    assert(out.take(k) + out.skip(k) =~= out);
    lemma_concat(out.take(k), out.skip(k));
}

proof fn lemma_start_place(out: Seq<ChunkView>, i: int) -> (j: int)
    requires
        0 <= i < starts(out).len(),
    ensures
        0 <= j < out.len(),
        out[j] == (ChunkView::BlockStart { index: starts(out)[i].0, block_type: starts(out)[i].1 }),
    decreases out.len(),
{
    if out.last() is BlockStart && i == starts(out).len() - 1 {
        out.len() - 1
    } else {
        lemma_start_place(out.drop_last(), i)
    }
}

/// Over a whole stream every delta follows the start of its block, which is of its kind.
pub proof fn law_deltas_match_their_block(payloads: Seq<PayloadView>, k: int)
    requires
        0 <= k < run(payloads).1.len(),
    ensures
        ({
            let out = run(payloads).1;
            delta_index(out[k]) matches Some(i) ==> exists|j: int|
                0 <= j < k && #[trigger] out[j] == (ChunkView::BlockStart {
                    index: i,
                    block_type: delta_kind(out[k])->0,
                })
        }),
{
    lemma_run_grows(payloads);
    let (t, out) = run(payloads);
    if let Some(i) = delta_index(out[k]) {
        lemma_starts_prefix(out, k);
        assert(delta_kind(out[k]) == Some(t.order[i].kind));
        assert(starts(out)[i] == (i, t.order[i].kind));
        assert(starts(out.take(k))[i] == starts(out)[i]);
        let j = lemma_start_place(out.take(k), i);
        assert(out[j] == out.take(k)[j]);
    }
}

/// Over a whole stream at most one block is started for the text and one for the reasoning.
pub proof fn law_text_and_reasoning_start_once(payloads: Seq<PayloadView>)
    ensures
        ({
            let begun = starts(run(payloads).1);
            forall|i: int, j: int|
                0 <= i < begun.len() && 0 <= j < begun.len() && (#[trigger] begun[i]).1 == (
                #[trigger] begun[j]).1 && begun[i].1 != BlockType::ToolCall ==> i == j
        }),
{
    lemma_run_grows(payloads);
    let (t, out) = run(payloads);
    let begun = starts(out);
    assert forall|i: int, j: int|
        0 <= i < begun.len() && 0 <= j < begun.len() && (#[trigger] begun[i]).1 == (
        #[trigger] begun[j]).1 && begun[i].1 != BlockType::ToolCall implies i == j by {
        assert(begun[i] == (i, t.order[i].kind));
        assert(begun[j] == (j, t.order[j].kind));
    }
}

/// The chunk belongs to a block of this kind: its start or one of its deltas.
pub open spec fn of_kind(c: ChunkView, kind: BlockType) -> bool {
    match c {
        ChunkView::BlockStart { index, block_type } => block_type == kind,
        _ => delta_kind(c) == Some(kind),
    }
}

proof fn lemma_calls_say_calls(t: TranslatorView, calls: Seq<CallDeltaView>)
    ensures
        forall|k: int|
            0 <= k < calls_step(t, calls).1.len() ==> of_kind(
                #[trigger] calls_step(t, calls).1[k],
                BlockType::ToolCall,
            ),
    decreases calls.len(),
{
    if calls.len() > 0 {
        lemma_calls_say_calls(t, calls.drop_last());
        let p = calls_step(t, calls.drop_last());
        let q = call_step(p.0, calls.last());
        let out = calls_step(t, calls).1;
        assert forall|k: int| 0 <= k < out.len() implies of_kind(
            #[trigger] out[k],
            BlockType::ToolCall,
        ) by {
            if k < p.1.len() {
                assert(out[k] == p.1[k]);
            } else {
                assert(out[k] == q.1[k - p.1.len()]);
            }
        }
    }
}

/// Within one choice the reasoning comes before the text, and both before the tool calls.
pub proof fn law_reasoning_precedes_text(t: TranslatorView, c: ChoiceView)
    ensures
        ({
            let out = choice_step(t, c).1;
            forall|j: int, k: int|
                #![trigger out[j], out[k]]
                0 <= j < out.len() && 0 <= k < out.len() && ((of_kind(out[j], BlockType::Reasoning)
                    && of_kind(out[k], BlockType::Text)) || (!of_kind(out[j], BlockType::ToolCall)
                    && of_kind(out[k], BlockType::ToolCall))) ==> j < k
        }),
{
    if let Some(d) = c.delta {
        let a = reasoning_step(t, d.reasoning_content);
        let b = text_step(a.0, d.content);
        let e = calls_step(b.0, d.tool_calls);
        lemma_calls_say_calls(b.0, d.tool_calls);
        let out = choice_step(t, c).1;
        assert(out == a.1 + b.1 + e.1);
        assert forall|k: int| 0 <= k < out.len() implies of_kind(
            #[trigger] out[k],
            if k < a.1.len() {
                BlockType::Reasoning
            } else if k < a.1.len() + b.1.len() {
                BlockType::Text
            } else {
                BlockType::ToolCall
            },
        ) by {
            if k < a.1.len() {
                assert(out[k] == a.1[k]);
            } else if k < a.1.len() + b.1.len() {
                assert(out[k] == b.1[k - a.1.len()]);
            } else {
                assert(out[k] == e.1[k - a.1.len() - b.1.len()]);
            }
        }
    }
}

/// The tool-call fragments of a choice.
pub open spec fn choice_calls(c: ChoiceView) -> Seq<CallDeltaView> {
    match c.delta {
        Some(d) => d.tool_calls,
        None => Seq::empty(),
    }
}

/// The tool-call fragments of a list of choices, in order.
pub open spec fn choices_calls(choices: Seq<ChoiceView>) -> Seq<CallDeltaView>
    decreases choices.len(),
{
    if choices.len() == 0 {
        Seq::empty()
    } else {
        choices_calls(choices.drop_last()) + choice_calls(choices.last())
    }
}

/// The tool-call fragments of a whole stream, in order.
pub open spec fn stream_calls(payloads: Seq<PayloadView>) -> Seq<CallDeltaView>
    decreases payloads.len(),
{
    if payloads.len() == 0 {
        Seq::empty()
    } else {
        stream_calls(payloads.drop_last()) + choices_calls(payloads.last().choices)
    }
}

/// A fragment with this wire index came.
pub open spec fn called(calls: Seq<CallDeltaView>, wire: u64) -> bool
    decreases calls.len(),
{
    calls.len() > 0 && (calls.last().index == wire || called(calls.drop_last(), wire))
}

/// The last id that came for a wire index.
pub open spec fn last_id(calls: Seq<CallDeltaView>, wire: u64) -> Option<Seq<char>>
    decreases calls.len(),
{
    if calls.len() == 0 {
        None
    } else if calls.last().index == wire && calls.last().id is Some {
        calls.last().id
    } else {
        last_id(calls.drop_last(), wire)
    }
}

/// The last name that came for a wire index.
pub open spec fn last_name(calls: Seq<CallDeltaView>, wire: u64) -> Option<Seq<char>>
    decreases calls.len(),
{
    if calls.len() == 0 {
        None
    } else if calls.last().index == wire && calls.last().name is Some {
        calls.last().name
    } else {
        last_name(calls.drop_last(), wire)
    }
}

/// The argument fragments of a wire index, one after the other.
pub open spec fn arguments_of(calls: Seq<CallDeltaView>, wire: u64) -> Seq<char>
    decreases calls.len(),
{
    if calls.len() == 0 {
        Seq::empty()
    } else if calls.last().index == wire {
        arguments_of(calls.drop_last(), wire) + or_empty(calls.last().arguments)
    } else {
        arguments_of(calls.drop_last(), wire)
    }
}

/// Every wire index that came has its block, and that block holds what came for it.
pub open spec fn holds_calls(t: TranslatorView, calls: Seq<CallDeltaView>) -> bool {
    &&& forall|wire: u64| #[trigger] t.tool_slots.contains_key(wire) == called(calls, wire)
    &&& forall|wire: u64| #[trigger]
        t.tool_slots.contains_key(wire) ==> {
            let b = t.order[t.tool_slots[wire]];
            &&& b.call_id == last_id(calls, wire)
            &&& b.name == last_name(calls, wire)
            &&& b.text == arguments_of(calls, wire)
        }
}

proof fn lemma_call_is_held(t: TranslatorView, calls: Seq<CallDeltaView>, c: CallDeltaView)
    requires
        slots_ok(t),
        holds_calls(t, calls),
    ensures
        holds_calls(call_step(t, c).0, calls.push(c)),
{
    let u = call_step(t, c).0;
    let all = calls.push(c);
    assert(all.drop_last() =~= calls);
    assert forall|wire: u64| #[trigger] u.tool_slots.contains_key(wire) == called(all, wire) by {
        assert(t.tool_slots.contains_key(wire) == called(calls, wire));
    }
    assert(t.tool_slots.contains_key(c.index) == called(calls, c.index));
    if !called(calls, c.index) {
        lemma_nothing_came(calls, c.index);
    }
    assert forall|wire: u64| #[trigger] u.tool_slots.contains_key(wire) implies {
        let b = u.order[u.tool_slots[wire]];
        &&& b.call_id == last_id(all, wire)
        &&& b.name == last_name(all, wire)
        &&& b.text == arguments_of(all, wire)
    } by {
        if wire == c.index {
            let b = u.order[u.tool_slots[wire]];
            if t.tool_slots.contains_key(wire) {
                assert(t.order[t.tool_slots[wire]].text == arguments_of(calls, wire));
            } else {
                assert(b.text =~= arguments_of(all, wire));
            }
        } else {
            assert(t.tool_slots.contains_key(wire));
            if t.tool_slots.contains_key(c.index) {
                assert(t.tool_slots[wire] != t.tool_slots[c.index]);
            }
            assert(u.order[u.tool_slots[wire]] == t.order[t.tool_slots[wire]]);
        }
    }
}

proof fn lemma_nothing_came(calls: Seq<CallDeltaView>, wire: u64)
    requires
        !called(calls, wire),
    ensures
        last_id(calls, wire) is None,
        last_name(calls, wire) is None,
        arguments_of(calls, wire) == Seq::<char>::empty(),
    decreases calls.len(),
{
    if calls.len() > 0 {
        lemma_nothing_came(calls.drop_last(), wire);
    }
}

proof fn lemma_calls_are_held(
    t: TranslatorView,
    before: Seq<CallDeltaView>,
    calls: Seq<CallDeltaView>,
)
    requires
        slots_ok(t),
        holds_calls(t, before),
    ensures
        holds_calls(calls_step(t, calls).0, before + calls),
        slots_ok(calls_step(t, calls).0),
    decreases calls.len(),
{
    lemma_calls_grow(t, calls);
    if calls.len() == 0 {
        assert(before + calls =~= before);
    } else {
        let front = calls.drop_last();
        lemma_calls_grow(t, front);
        lemma_calls_are_held(t, before, front);
        lemma_call_is_held(calls_step(t, front).0, before + front, calls.last());
        assert((before + front).push(calls.last()) =~= before + calls);
    }
}

proof fn lemma_choice_is_held(t: TranslatorView, before: Seq<CallDeltaView>, c: ChoiceView)
    requires
        slots_ok(t),
        holds_calls(t, before),
    ensures
        holds_calls(choice_step(t, c).0, before + choice_calls(c)),
        slots_ok(choice_step(t, c).0),
{
    lemma_choice_grows(t, c);
    match c.delta {
        Some(d) => {
            lemma_reasoning_grows(t, d.reasoning_content);
            let a = reasoning_step(t, d.reasoning_content).0;
            assert forall|wire: u64| #[trigger] a.tool_slots.contains_key(wire) implies a.order[
            a.tool_slots[wire]] == t.order[t.tool_slots[wire]] by {
                assert(t.tool_slots.contains_key(wire));
            }
            assert(holds_calls(a, before));
            lemma_text_grows(a, d.content);
            let b = text_step(a, d.content).0;
            assert forall|wire: u64| #[trigger] b.tool_slots.contains_key(wire) implies b.order[
            b.tool_slots[wire]] == a.order[a.tool_slots[wire]] by {
                assert(a.tool_slots.contains_key(wire));
            }
            assert(holds_calls(b, before));
            lemma_calls_are_held(b, before, d.tool_calls);
            let e = calls_step(b, d.tool_calls).0;
            assert(holds_calls(noted(e, c.finish_reason), before + d.tool_calls));
        },
        None => {
            assert(before + choice_calls(c) =~= before);
        },
    }
}

proof fn lemma_choices_are_held(
    t: TranslatorView,
    before: Seq<CallDeltaView>,
    choices: Seq<ChoiceView>,
)
    requires
        slots_ok(t),
        holds_calls(t, before),
    ensures
        holds_calls(choices_step(t, choices).0, before + choices_calls(choices)),
        slots_ok(choices_step(t, choices).0),
    decreases choices.len(),
{
    if choices.len() == 0 {
        assert(before + choices_calls(choices) =~= before);
    } else {
        let front = choices.drop_last();
        lemma_choices_are_held(t, before, front);
        let p = choices_step(t, front).0;
        lemma_choice_is_held(p, before + choices_calls(front), choices.last());
        assert(before + choices_calls(front) + choice_calls(choices.last()) =~= before
            + choices_calls(choices));
    }
}

proof fn lemma_run_is_held(payloads: Seq<PayloadView>)
    ensures
        holds_calls(run(payloads).0, stream_calls(payloads)),
    decreases payloads.len(),
{
    if payloads.len() > 0 {
        let front = payloads.drop_last();
        lemma_run_is_held(front);
        lemma_run_grows(front);
        let p = run(front).0;
        lemma_choices_are_held(p, stream_calls(front), payloads.last().choices);
        let q = choices_step(p, payloads.last().choices).0;
        let r = feed_step(p, payloads.last()).0;
        assert(r.tool_slots == q.tool_slots && r.order == q.order);
    }
}

/// Over a whole stream there is one tool-call block for each wire index that came, no other,
/// and none is shared: the blocks are those that the slots name.
pub proof fn law_one_block_per_wire_index(payloads: Seq<PayloadView>)
    ensures
        ({
            let (t, out) = run(payloads);
            let begun = starts(out);
            let calls = stream_calls(payloads);
            &&& forall|wire: u64| #[trigger]
                called(calls, wire) == t.tool_slots.contains_key(wire)
            &&& forall|wire: u64| #[trigger]
                t.tool_slots.contains_key(wire) ==> 0 <= t.tool_slots[wire] < begun.len()
                    && begun[t.tool_slots[wire]].1 == BlockType::ToolCall
            &&& forall|v: u64, w: u64|
                v != w && #[trigger] t.tool_slots.contains_key(v)
                    && #[trigger] t.tool_slots.contains_key(w) ==> t.tool_slots[v]
                    != t.tool_slots[w]
            &&& forall|i: int|
                0 <= i < begun.len() && (#[trigger] begun[i]).1 == BlockType::ToolCall ==> exists|
                    wire: u64,
                | #[trigger]
                    t.tool_slots.contains_key(wire) && t.tool_slots[wire] == i
        }),
{
    lemma_run_grows(payloads);
    lemma_run_is_held(payloads);
    let (t, out) = run(payloads);
    let calls = stream_calls(payloads);
    assert forall|wire: u64| #[trigger] called(calls, wire) == t.tool_slots.contains_key(wire) by {
        assert(t.tool_slots.contains_key(wire) == called(calls, wire));
    }
    let begun = starts(out);
    assert forall|i: int| 0 <= i < begun.len() implies #[trigger] begun[i] == (
        i,
        t.order[i].kind,
    ) by {}
}

/// The last finish reason that a list of choices names.
pub open spec fn choices_reason(choices: Seq<ChoiceView>) -> Option<Seq<char>>
    decreases choices.len(),
{
    if choices.len() == 0 {
        None
    } else if choices.last().finish_reason is Some {
        choices.last().finish_reason
    } else {
        choices_reason(choices.drop_last())
    }
}

/// The last finish reason that a stream names.
pub open spec fn last_reason(payloads: Seq<PayloadView>) -> Option<Seq<char>>
    decreases payloads.len(),
{
    if payloads.len() == 0 {
        None
    } else if choices_reason(payloads.last().choices) is Some {
        choices_reason(payloads.last().choices)
    } else {
        last_reason(payloads.drop_last())
    }
}

/// The last usage that a stream sends.
pub open spec fn last_usage(payloads: Seq<PayloadView>) -> Option<WireUsage>
    decreases payloads.len(),
{
    if payloads.len() == 0 {
        None
    } else if payloads.last().usage is Some {
        payloads.last().usage
    } else {
        last_usage(payloads.drop_last())
    }
}

/// How a stream finishes that names this reason last: a stop, or none, without any block is
/// the empty-response error.
pub open spec fn finish_for(reason: Option<Seq<char>>, empty: bool) -> FinishView {
    let named = match reason {
        Some(r) => finish_of(r),
        None => FinishView::Stop,
    };
    if named is Stop && empty {
        FinishView::Error {
            failure: ErrorView {
                message: "model returned a completed response with no content"@,
                code: "EMPTY_RESPONSE"@,
            },
        }
    } else {
        named
    }
}

proof fn lemma_calls_keep_the_rest(t: TranslatorView, calls: Seq<CallDeltaView>)
    ensures
        calls_step(t, calls).0.usage == t.usage,
        calls_step(t, calls).0.finish == t.finish,
    decreases calls.len(),
{
    if calls.len() > 0 {
        lemma_calls_keep_the_rest(t, calls.drop_last());
    }
}

proof fn lemma_choices_note(t: TranslatorView, choices: Seq<ChoiceView>)
    ensures
        choices_step(t, choices).0.usage == t.usage,
        choices_step(t, choices).0.finish == match choices_reason(choices) {
            Some(r) => Some(finish_of(r)),
            None => t.finish,
        },
    decreases choices.len(),
{
    if choices.len() > 0 {
        lemma_choices_note(t, choices.drop_last());
        let p = choices_step(t, choices.drop_last()).0;
        if let Some(d) = choices.last().delta {
            let b = text_step(reasoning_step(p, d.reasoning_content).0, d.content).0;
            lemma_calls_keep_the_rest(b, d.tool_calls);
        }
    }
}

proof fn lemma_run_notes(payloads: Seq<PayloadView>)
    ensures
        run(payloads).0.usage == match last_usage(payloads) {
            Some(u) => Some(usage_of(u)),
            None => None,
        },
        run(payloads).0.finish == match last_reason(payloads) {
            Some(r) => Some(finish_of(r)),
            None => None,
        },
    decreases payloads.len(),
{
    if payloads.len() > 0 {
        lemma_run_notes(payloads.drop_last());
        lemma_choices_note(run(payloads.drop_last()).0, payloads.last().choices);
    }
}

/// What closes a stream, by all that came: one end per started block, in order, with the
/// block's deltas put together and, for a tool call, the last id and name that came for its
/// wire index; then the last usage that was sent, where one was; then the one finish, by the
/// last reason that was named.
pub proof fn law_closing_tells_the_last(payloads: Seq<PayloadView>)
    ensures
        ({
            let (t, out) = run(payloads);
            let begun = starts(out);
            let calls = stream_calls(payloads);
            let n = begun.len() as int;
            let usage = match last_usage(payloads) {
                Some(u) => seq![ChunkView::Usage { usage: usage_of(u) }],
                None => Seq::empty(),
            };
            let ends = closing(t).take(n);
            &&& closing(t) == ends + usage + seq![
                ChunkView::Finish { reason: finish_for(last_reason(payloads), n == 0) },
            ]
            &&& forall|i: int|
                0 <= i < n && (#[trigger] begun[i]).1 == BlockType::Text ==> ends[i] == (
                ChunkView::BlockEnd {
                    index: i,
                    block: ContentView::Text { text: spoken(out, i) },
                })
            &&& forall|i: int|
                0 <= i < n && (#[trigger] begun[i]).1 == BlockType::Reasoning ==> ends[i] == (
                ChunkView::BlockEnd {
                    index: i,
                    block: ContentView::Reasoning { text: spoken(out, i) },
                })
            &&& forall|wire: u64| #[trigger]
                called(calls, wire) ==> {
                    let i = t.tool_slots[wire];
                    &&& 0 <= i < n
                    &&& spoken(out, i) == arguments_of(calls, wire)
                    &&& ends[i] == (ChunkView::BlockEnd {
                        index: i,
                        block: ContentView::ToolCall {
                            id: or_empty(last_id(calls, wire)),
                            name: or_empty(last_name(calls, wire)),
                            arguments: spoken(out, i),
                        },
                    })
                }
        }),
{
    lemma_run_grows(payloads);
    lemma_run_is_held(payloads);
    lemma_run_notes(payloads);
    let (t, out) = run(payloads);
    let begun = starts(out);
    let calls = stream_calls(payloads);
    let n = begun.len() as int;
    assert(n == t.order.len());
    let ends = closing(t).take(n);
    assert(ends =~= block_ends(t.order));
    assert forall|i: int| 0 <= i < n implies #[trigger] begun[i] == (i, t.order[i].kind)
        && t.order[i].text == spoken(out, i) by {
        assert(text_at(t, i) == text_at(fresh(), i) + spoken(out, i));
        assert(text_at(t, i) =~= spoken(out, i));
    }
    let usage = match last_usage(payloads) {
        Some(u) => seq![ChunkView::Usage { usage: usage_of(u) }],
        None => Seq::<ChunkView>::empty(),
    };
    assert(closing(t) =~= ends + usage + seq![
        ChunkView::Finish { reason: finish_for(last_reason(payloads), n == 0) },
    ]);
    assert forall|wire: u64| #[trigger] called(calls, wire) implies {
        let i = t.tool_slots[wire];
        &&& 0 <= i < n
        &&& spoken(out, i) == arguments_of(calls, wire)
        &&& ends[i] == (ChunkView::BlockEnd {
            index: i,
            block: ContentView::ToolCall {
                id: or_empty(last_id(calls, wire)),
                name: or_empty(last_name(calls, wire)),
                arguments: spoken(out, i),
            },
        })
    } by {
        assert(t.tool_slots.contains_key(wire) == called(calls, wire));
        let i = t.tool_slots[wire];
        assert(begun[i] == (i, t.order[i].kind));
    }
}

/// No chunk follows the finish: a closed stream ends with its one finish.
pub proof fn law_finish_is_last(t: TranslatorView)
    ensures
        closing(t).len() > 0,
        closing(t).last() == (ChunkView::Finish { reason: final_reason(t) }),
        forall|k: int| 0 <= k < closing(t).len() - 1 ==> !((#[trigger] closing(t)[k]) is Finish),
{
}

/// Progress is never lost: what one payload opened or named, no later payload takes back.
pub proof fn law_progress_stays(t: TranslatorView, payload: PayloadView)
    requires
        slots_ok(t),
        progressed(t),
    ensures
        progressed(feed_step(t, payload).0),
{
    law_feed_tells_growth(t, payload);
    lemma_choices_note(t, payload.choices);
}

/// A completed answer without content is closed with the empty-response error; every other
/// answer keeps the finish that it named.
pub proof fn law_empty_answer_is_an_error(t: TranslatorView)
    ensures
        t.order.len() == 0 && (t.finish is None || t.finish == Some(FinishView::Stop)) ==> (
        final_reason(t) matches FinishView::Error { failure } && failure.code
            == "EMPTY_RESPONSE"@),
        !progressed(t) ==> final_reason(t) is Error,
        t.order.len() > 0 && t.finish is None ==> final_reason(t) is Stop,
        t.finish is Some && (t.order.len() > 0 || t.finish != Some(FinishView::Stop))
            ==> final_reason(t) == t.finish->0,
{
}

/// A delta that is empty, or not there, opens no block and says nothing.
pub proof fn law_empty_deltas_open_nothing(t: TranslatorView, delta: Option<Seq<char>>)
    requires
        delta matches Some(text) ==> text.len() == 0,
    ensures
        reasoning_step(t, delta) == (t, Seq::<ChunkView>::empty()),
        text_step(t, delta) == (t, Seq::<ChunkView>::empty()),
{
}

/// The counts are disjoint: where the cache hits are part of the prompt, input and cache reads
/// add up to the prompt tokens.
pub proof fn law_usage_is_disjoint(usage: WireUsage)
    requires
        cache_hits(usage) matches Some(n) ==> n <= usage.prompt_tokens,
    ensures
        usage_of(usage).input_tokens + (match usage_of(usage).cache_read_tokens {
            Some(n) => n as int,
            None => 0,
        }) == usage.prompt_tokens,
{
}

/// What a choice says in its text or its reasoning field: one piece, where there is any.
pub open spec fn choice_pieces(c: ChoiceView, kind: BlockType) -> Seq<Seq<char>> {
    let field = match c.delta {
        Some(d) => match kind {
            BlockType::Text => d.content,
            BlockType::Reasoning => d.reasoning_content,
            BlockType::ToolCall => None,
        },
        None => None,
    };
    match field {
        Some(piece) => if piece.len() > 0 {
            seq![piece]
        } else {
            Seq::empty()
        },
        None => Seq::empty(),
    }
}

/// The pieces of a list of choices, in order.
pub open spec fn choices_pieces(choices: Seq<ChoiceView>, kind: BlockType) -> Seq<Seq<char>>
    decreases choices.len(),
{
    if choices.len() == 0 {
        Seq::empty()
    } else {
        choices_pieces(choices.drop_last(), kind) + choice_pieces(choices.last(), kind)
    }
}

/// The pieces of a whole stream, in order.
pub open spec fn stream_pieces(payloads: Seq<PayloadView>, kind: BlockType) -> Seq<Seq<char>>
    decreases payloads.len(),
{
    if payloads.len() == 0 {
        Seq::empty()
    } else {
        stream_pieces(payloads.drop_last(), kind) + choices_pieces(payloads.last().choices, kind)
    }
}

/// The pieces one after the other, with nothing between them and nothing left out.
pub open spec fn put_together(pieces: Seq<Seq<char>>) -> Seq<char>
    decreases pieces.len(),
{
    if pieces.len() == 0 {
        Seq::empty()
    } else {
        put_together(pieces.drop_last()) + pieces.last()
    }
}

/// The texts of the deltas of a kind, in order.
pub open spec fn told_pieces(out: Seq<ChunkView>, kind: BlockType) -> Seq<Seq<char>>
    decreases out.len(),
{
    if out.len() == 0 {
        Seq::empty()
    } else {
        let before = told_pieces(out.drop_last(), kind);
        match (out.last(), kind) {
            (ChunkView::TextDelta { index, text }, BlockType::Text) => before.push(text),
            (ChunkView::ReasoningDelta { index, text }, BlockType::Reasoning) => before.push(text),
            _ => before,
        }
    }
}

proof fn lemma_pieces_concat(a: Seq<ChunkView>, b: Seq<ChunkView>, kind: BlockType)
    ensures
        told_pieces(a + b, kind) == told_pieces(a, kind) + told_pieces(b, kind),
    decreases b.len(),
{
    if b.len() == 0 {
        assert(a + b =~= a);
        assert(told_pieces(a, kind) + told_pieces(b, kind) =~= told_pieces(a, kind));
    } else {
        lemma_pieces_concat(a, b.drop_last(), kind);
        assert((a + b).drop_last() =~= a + b.drop_last());
        assert(told_pieces(a + b, kind) =~= told_pieces(a, kind) + told_pieces(b, kind));
    }
}

proof fn lemma_no_pieces(out: Seq<ChunkView>, kind: BlockType)
    requires
        forall|k: int| 0 <= k < out.len() ==> delta_kind(#[trigger] out[k]) != Some(kind),
    ensures
        told_pieces(out, kind) == Seq::<Seq<char>>::empty(),
    decreases out.len(),
{
    if out.len() > 0 {
        assert(delta_kind(out[out.len() - 1]) != Some(kind));
        assert forall|k: int| 0 <= k < out.drop_last().len() implies delta_kind(
            #[trigger] out.drop_last()[k],
        ) != Some(kind) by {
            assert(out.drop_last()[k] == out[k]);
        }
        lemma_no_pieces(out.drop_last(), kind);
    }
}

proof fn lemma_one_delta(t: TranslatorView, delta: Option<Seq<char>>, kind: BlockType)
    requires
        kind != BlockType::ToolCall,
    ensures
        ({
            let piece = match delta {
                Some(s) => if s.len() > 0 {
                    seq![s]
                } else {
                    Seq::empty()
                },
                None => Seq::empty(),
            };
            let none = Seq::<Seq<char>>::empty();
            &&& told_pieces(reasoning_step(t, delta).1, kind) == if kind == BlockType::Reasoning {
                piece
            } else {
                none
            }
            &&& told_pieces(text_step(t, delta).1, kind) == if kind == BlockType::Text {
                piece
            } else {
                none
            }
        }),
{
    reveal_with_fuel(told_pieces, 3);
    let a = reasoning_step(t, delta).1;
    let b = text_step(t, delta).1;
    if a.len() == 2 {
        assert(a.drop_last() =~= seq![a[0]]);
    }
    if a.len() > 0 {
        assert(seq![a[0]].drop_last() =~= Seq::<ChunkView>::empty());
        assert(a.take(1) =~= seq![a[0]]);
    }
    if b.len() == 2 {
        assert(b.drop_last() =~= seq![b[0]]);
    }
    if b.len() > 0 {
        assert(seq![b[0]].drop_last() =~= Seq::<ChunkView>::empty());
        assert(b.take(1) =~= seq![b[0]]);
    }
    if let Some(s) = delta {
        assert(told_pieces(a, kind) =~= if kind == BlockType::Reasoning && s.len() > 0 {
            seq![s]
        } else {
            Seq::empty()
        });
        assert(told_pieces(b, kind) =~= if kind == BlockType::Text && s.len() > 0 {
            seq![s]
        } else {
            Seq::empty()
        });
    }
}

proof fn lemma_choice_pieces(t: TranslatorView, c: ChoiceView, kind: BlockType)
    requires
        kind != BlockType::ToolCall,
    ensures
        told_pieces(choice_step(t, c).1, kind) == choice_pieces(c, kind),
{
    if let Some(d) = c.delta {
        let a = reasoning_step(t, d.reasoning_content);
        let b = text_step(a.0, d.content);
        let e = calls_step(b.0, d.tool_calls);
        lemma_one_delta(t, d.reasoning_content, kind);
        lemma_one_delta(a.0, d.content, kind);
        lemma_calls_say_calls(b.0, d.tool_calls);
        lemma_no_pieces(e.1, kind);
        lemma_pieces_concat(a.1, b.1, kind);
        lemma_pieces_concat(a.1 + b.1, e.1, kind);
        assert(told_pieces(choice_step(t, c).1, kind) =~= choice_pieces(c, kind));
    }
}

proof fn lemma_choices_pieces(t: TranslatorView, choices: Seq<ChoiceView>, kind: BlockType)
    requires
        kind != BlockType::ToolCall,
    ensures
        told_pieces(choices_step(t, choices).1, kind) == choices_pieces(choices, kind),
    decreases choices.len(),
{
    if choices.len() > 0 {
        let p = choices_step(t, choices.drop_last());
        lemma_choices_pieces(t, choices.drop_last(), kind);
        lemma_choice_pieces(p.0, choices.last(), kind);
        lemma_pieces_concat(p.1, choice_step(p.0, choices.last()).1, kind);
    }
}

/// A payload is told as it comes: its text deltas are the `content` fields of its choices that
/// hold anything, one each, in order and character for character, and its reasoning deltas the
/// `reasoning_content` fields.
pub proof fn law_a_payload_is_told_as_it_comes(
    t: TranslatorView,
    payload: PayloadView,
    kind: BlockType,
)
    requires
        kind != BlockType::ToolCall,
    ensures
        told_pieces(feed_step(t, payload).1, kind) == choices_pieces(payload.choices, kind),
{
    lemma_choices_pieces(t, payload.choices, kind);
}

proof fn lemma_run_pieces(payloads: Seq<PayloadView>, kind: BlockType)
    requires
        kind != BlockType::ToolCall,
    ensures
        told_pieces(run(payloads).1, kind) == stream_pieces(payloads, kind),
    decreases payloads.len(),
{
    if payloads.len() > 0 {
        let p = run(payloads.drop_last());
        lemma_run_pieces(payloads.drop_last(), kind);
        law_a_payload_is_told_as_it_comes(p.0, payloads.last(), kind);
        lemma_pieces_concat(p.1, feed_step(p.0, payloads.last()).1, kind);
    }
}

proof fn lemma_spoken_is_pieces(out: Seq<ChunkView>, i: int, kind: BlockType)
    requires
        kind != BlockType::ToolCall,
        forall|k: int|
            0 <= k < out.len() ==> (delta_index(#[trigger] out[k]) matches Some(j) ==> (j == i
                <==> delta_kind(out[k]) == Some(kind))),
    ensures
        spoken(out, i) == put_together(told_pieces(out, kind)),
    decreases out.len(),
{
    if out.len() > 0 {
        let front = out.drop_last();
        assert forall|k: int| 0 <= k < front.len() implies (delta_index(
            #[trigger] front[k],
        ) matches Some(j) ==> (j == i <==> delta_kind(front[k]) == Some(kind))) by {
            assert(front[k] == out[k]);
        }
        lemma_spoken_is_pieces(front, i, kind);
        let c = out[out.len() - 1];
        assert(delta_index(c) matches Some(j) ==> (j == i <==> delta_kind(c) == Some(kind)));
        let before = told_pieces(front, kind);
        if delta_kind(c) == Some(kind) {
            assert(told_pieces(out, kind) == before.push(said(c, i)));
            assert(before.push(said(c, i)).drop_last() =~= before);
        } else {
            assert(said(c, i) =~= Seq::<char>::empty());
            assert(spoken(front, i) + said(c, i) =~= spoken(front, i));
        }
    }
}

proof fn lemma_piece_place(out: Seq<ChunkView>, kind: BlockType) -> (k: int)
    requires
        told_pieces(out, kind).len() > 0,
    ensures
        0 <= k < out.len(),
        delta_kind(out[k]) == Some(kind),
        delta_index(out[k]) is Some,
    decreases out.len(),
{
    if delta_kind(out.last()) == Some(kind) && delta_index(out.last()) is Some {
        out.len() - 1
    } else {
        lemma_piece_place(out.drop_last(), kind)
    }
}

/// Every text and every reasoning block holds something.
spec fn none_blank(t: TranslatorView) -> bool {
    forall|i: int|
        0 <= i < t.order.len() && (#[trigger] t.order[i]).kind != BlockType::ToolCall
            ==> t.order[i].text.len() > 0
}

proof fn lemma_calls_none_blank(t: TranslatorView, calls: Seq<CallDeltaView>)
    requires
        slots_ok(t),
        none_blank(t),
    ensures
        none_blank(calls_step(t, calls).0),
    decreases calls.len(),
{
    if calls.len() > 0 {
        lemma_calls_none_blank(t, calls.drop_last());
        lemma_calls_grow(t, calls.drop_last());
        let p = calls_step(t, calls.drop_last()).0;
        let u = call_step(p, calls.last()).0;
        assert forall|i: int|
            0 <= i < u.order.len() && (#[trigger] u.order[i]).kind
                != BlockType::ToolCall implies u.order[i].text.len() > 0 by {
            assert(u.order[i] == p.order[i]);
        }
    }
}

proof fn lemma_choices_none_blank(t: TranslatorView, choices: Seq<ChoiceView>)
    requires
        slots_ok(t),
        none_blank(t),
    ensures
        none_blank(choices_step(t, choices).0),
    decreases choices.len(),
{
    if choices.len() > 0 {
        lemma_choices_none_blank(t, choices.drop_last());
        lemma_choices_grow(t, choices.drop_last());
        let p = choices_step(t, choices.drop_last()).0;
        if let Some(d) = choices.last().delta {
            lemma_reasoning_grows(p, d.reasoning_content);
            let a = reasoning_step(p, d.reasoning_content).0;
            lemma_text_grows(a, d.content);
            let b = text_step(a, d.content).0;
            assert(none_blank(a));
            assert(none_blank(b));
            lemma_calls_none_blank(b, d.tool_calls);
        }
    }
}

proof fn lemma_run_none_blank(payloads: Seq<PayloadView>)
    ensures
        none_blank(run(payloads).0),
    decreases payloads.len(),
{
    if payloads.len() > 0 {
        lemma_run_none_blank(payloads.drop_last());
        lemma_run_grows(payloads.drop_last());
        lemma_choices_none_blank(run(payloads.drop_last()).0, payloads.last().choices);
    }
}

/// Over a whole stream nothing that the model said is lost or changed. The text deltas are the
/// `content` fields that hold anything; where there are any, they are of one text block, which
/// ends with them put together, and else there is no text block. So it is with the reasoning
/// and the `reasoning_content` fields.
pub proof fn law_blocks_say_what_came(payloads: Seq<PayloadView>, kind: BlockType)
    requires
        kind != BlockType::ToolCall,
    ensures
        ({
            let (t, out) = run(payloads);
            let begun = starts(out);
            let pieces = stream_pieces(payloads, kind);
            let said = put_together(pieces);
            &&& told_pieces(out, kind) == pieces
            &&& (exists|i: int| 0 <= i < begun.len() && (#[trigger] begun[i]).1 == kind)
                <==> pieces.len() > 0
            &&& forall|i: int|
                0 <= i < begun.len() && (#[trigger] begun[i]).1 == kind ==> {
                    &&& spoken(out, i) == said
                    &&& closing(t)[i] == (ChunkView::BlockEnd {
                        index: i,
                        block: if kind == BlockType::Text {
                            ContentView::Text { text: said }
                        } else {
                            ContentView::Reasoning { text: said }
                        },
                    })
                }
        }),
{
    lemma_run_grows(payloads);
    lemma_run_pieces(payloads, kind);
    lemma_run_none_blank(payloads);
    law_closing_tells_the_last(payloads);
    let (t, out) = run(payloads);
    let begun = starts(out);
    let n = begun.len() as int;
    let pieces = stream_pieces(payloads, kind);
    assert forall|i: int| 0 <= i < n implies #[trigger] begun[i] == (i, t.order[i].kind) by {}
    assert forall|i: int| 0 <= i < n && (#[trigger] begun[i]).1 == kind implies spoken(out, i)
        == put_together(pieces) && closing(t)[i] == (ChunkView::BlockEnd {
        index: i,
        block: if kind == BlockType::Text {
            ContentView::Text { text: put_together(pieces) }
        } else {
            ContentView::Reasoning { text: put_together(pieces) }
        },
    }) && pieces.len() > 0 by {
        assert forall|k: int| 0 <= k < out.len() implies (delta_index(
            #[trigger] out[k],
        ) matches Some(j) ==> (j == i <==> delta_kind(out[k]) == Some(kind))) by {
            if let Some(j) = delta_index(out[k]) {
                assert(0 <= j < t.order.len());
                assert(delta_kind(out[k]) == Some(t.order[j].kind));
                assert(t.order[i].kind == kind);
            }
        }
        lemma_spoken_is_pieces(out, i, kind);
        assert(closing(t).take(n)[i] == closing(t)[i]);
        assert(text_at(t, i) == text_at(fresh(), i) + spoken(out, i));
        assert(t.order[i].text.len() > 0);
        if pieces.len() == 0 {
            assert(put_together(pieces).len() == 0);
        }
    }
    if pieces.len() > 0 {
        let k = lemma_piece_place(out, kind);
        let i = delta_index(out[k])->0;
        assert(begun[i].1 == kind);
    }
}

/// One told tool-call fragment: its block, the id and the name so far, and what it adds to the
/// arguments.
pub struct FragmentView {
    pub index: int,
    pub id: Seq<char>,
    pub name: Option<Seq<char>>,
    pub arguments: Seq<char>,
}

/// The tool-call deltas, in order.
pub open spec fn told_fragments(out: Seq<ChunkView>) -> Seq<FragmentView>
    decreases out.len(),
{
    if out.len() == 0 {
        Seq::empty()
    } else {
        let before = told_fragments(out.drop_last());
        match out.last() {
            ChunkView::ToolCallDelta { index, id, name, arguments_delta } => before.push(
                FragmentView { index, id, name, arguments: arguments_delta },
            ),
            _ => before,
        }
    }
}

/// What is told of the fragment at `k`: the block of its wire index, the last id and name that
/// came for that index by then, and its own arguments.
pub open spec fn fragment_at(t: TranslatorView, calls: Seq<CallDeltaView>, k: int) -> FragmentView {
    let wire = calls[k].index;
    let seen = calls.take(k + 1);
    FragmentView {
        index: t.tool_slots[wire],
        id: match last_id(seen, wire) {
            Some(id) => id,
            None => Seq::empty(),
        },
        name: last_name(seen, wire),
        arguments: match calls[k].arguments {
            Some(arguments) => arguments,
            None => Seq::empty(),
        },
    }
}

spec fn tells_calls(t: TranslatorView, calls: Seq<CallDeltaView>, out: Seq<ChunkView>) -> bool {
    &&& told_fragments(out).len() == calls.len()
    &&& forall|k: int|
        0 <= k < calls.len() ==> t.tool_slots.contains_key((#[trigger] calls[k]).index)
            && told_fragments(out)[k] == fragment_at(t, calls, k)
}

proof fn lemma_fragments_concat(a: Seq<ChunkView>, b: Seq<ChunkView>)
    ensures
        told_fragments(a + b) == told_fragments(a) + told_fragments(b),
    decreases b.len(),
{
    if b.len() == 0 {
        assert(a + b =~= a);
        assert(told_fragments(a) + told_fragments(b) =~= told_fragments(a));
    } else {
        lemma_fragments_concat(a, b.drop_last());
        assert((a + b).drop_last() =~= a + b.drop_last());
        assert(told_fragments(a + b) =~= told_fragments(a) + told_fragments(b));
    }
}

proof fn lemma_no_fragments(out: Seq<ChunkView>)
    requires
        forall|k: int| 0 <= k < out.len() ==> !((#[trigger] out[k]) is ToolCallDelta),
    ensures
        told_fragments(out) == Seq::<FragmentView>::empty(),
    decreases out.len(),
{
    if out.len() > 0 {
        assert(!(out[out.len() - 1] is ToolCallDelta));
        assert forall|k: int| 0 <= k < out.drop_last().len() implies !((
        #[trigger] out.drop_last()[k]) is ToolCallDelta) by {
            assert(out.drop_last()[k] == out[k]);
        }
        lemma_no_fragments(out.drop_last());
    }
}

proof fn lemma_call_is_told(
    t: TranslatorView,
    calls: Seq<CallDeltaView>,
    out: Seq<ChunkView>,
    c: CallDeltaView,
)
    requires
        slots_ok(t),
        holds_calls(t, calls),
        tells_calls(t, calls, out),
    ensures
        tells_calls(call_step(t, c).0, calls.push(c), out + call_step(t, c).1),
{
    let (u, more) = call_step(t, c);
    let all = calls.push(c);
    lemma_call_is_held(t, calls, c);
    lemma_fragments_concat(out, more);
    reveal_with_fuel(told_fragments, 3);
    assert(u.tool_slots.contains_key(c.index));
    let b = u.order[u.tool_slots[c.index]];
    let told = FragmentView {
        index: u.tool_slots[c.index],
        id: or_empty(b.call_id),
        name: b.name,
        arguments: or_empty(c.arguments),
    };
    if more.len() == 2 {
        assert(more.drop_last() =~= seq![more[0]]);
        assert(seq![more[0]].drop_last() =~= Seq::<ChunkView>::empty());
    } else {
        assert(more.drop_last() =~= Seq::<ChunkView>::empty());
    }
    assert(told_fragments(more) =~= seq![told]);
    assert(all.take(calls.len() as int + 1) =~= all);
    assert forall|k: int| 0 <= k < all.len() implies u.tool_slots.contains_key(
        (#[trigger] all[k]).index,
    ) && told_fragments(out + more)[k] == fragment_at(u, all, k) by {
        if k < calls.len() {
            assert(calls[k] == all[k]);
            assert(t.tool_slots.contains_key(calls[k].index));
            assert(all.take(k + 1) =~= calls.take(k + 1));
            assert(told_fragments(out)[k] == fragment_at(t, calls, k));
        }
    }
}

proof fn lemma_calls_are_told(
    t: TranslatorView,
    before: Seq<CallDeltaView>,
    out: Seq<ChunkView>,
    calls: Seq<CallDeltaView>,
)
    requires
        slots_ok(t),
        holds_calls(t, before),
        tells_calls(t, before, out),
    ensures
        tells_calls(calls_step(t, calls).0, before + calls, out + calls_step(t, calls).1),
    decreases calls.len(),
{
    if calls.len() == 0 {
        assert(before + calls =~= before);
        assert(out + calls_step(t, calls).1 =~= out);
    } else {
        let front = calls.drop_last();
        let p = calls_step(t, front);
        let q = call_step(p.0, calls.last());
        lemma_calls_are_told(t, before, out, front);
        lemma_calls_are_held(t, before, front);
        lemma_call_is_told(p.0, before + front, out + p.1, calls.last());
        assert((before + front).push(calls.last()) =~= before + calls);
        assert(out + p.1 + q.1 =~= out + (p.1 + q.1));
    }
}

proof fn lemma_same_slots(
    t: TranslatorView,
    u: TranslatorView,
    calls: Seq<CallDeltaView>,
    out: Seq<ChunkView>,
    more: Seq<ChunkView>,
)
    requires
        tells_calls(t, calls, out),
        u.tool_slots == t.tool_slots,
        told_fragments(more).len() == 0,
    ensures
        tells_calls(u, calls, out + more),
{
    lemma_fragments_concat(out, more);
    assert(told_fragments(out + more) =~= told_fragments(out));
    assert forall|k: int| 0 <= k < calls.len() implies u.tool_slots.contains_key(
        (#[trigger] calls[k]).index,
    ) && told_fragments(out + more)[k] == fragment_at(u, calls, k) by {
        assert(told_fragments(out)[k] == fragment_at(t, calls, k));
    }
}

proof fn lemma_choice_is_told(
    t: TranslatorView,
    before: Seq<CallDeltaView>,
    out: Seq<ChunkView>,
    c: ChoiceView,
)
    requires
        slots_ok(t),
        holds_calls(t, before),
        tells_calls(t, before, out),
    ensures
        tells_calls(choice_step(t, c).0, before + choice_calls(c), out + choice_step(t, c).1),
{
    match c.delta {
        Some(d) => {
            lemma_reasoning_grows(t, d.reasoning_content);
            let a = reasoning_step(t, d.reasoning_content);
            lemma_no_fragments(a.1);
            lemma_same_slots(t, a.0, before, out, a.1);
            assert forall|wire: u64| #[trigger] a.0.tool_slots.contains_key(
                wire,
            ) implies a.0.order[a.0.tool_slots[wire]] == t.order[t.tool_slots[wire]] by {
                assert(t.tool_slots.contains_key(wire));
            }
            assert(holds_calls(a.0, before));
            lemma_text_grows(a.0, d.content);
            let b = text_step(a.0, d.content);
            lemma_no_fragments(b.1);
            lemma_same_slots(a.0, b.0, before, out + a.1, b.1);
            assert forall|wire: u64| #[trigger] b.0.tool_slots.contains_key(
                wire,
            ) implies b.0.order[b.0.tool_slots[wire]] == a.0.order[a.0.tool_slots[wire]] by {
                assert(a.0.tool_slots.contains_key(wire));
            }
            assert(holds_calls(b.0, before));
            lemma_calls_are_told(b.0, before, out + a.1 + b.1, d.tool_calls);
            let e = calls_step(b.0, d.tool_calls);
            let all = out + a.1 + b.1 + e.1;
            let none = Seq::<ChunkView>::empty();
            assert(told_fragments(none).len() == 0);
            lemma_same_slots(
                e.0,
                noted(e.0, c.finish_reason),
                before + d.tool_calls,
                all,
                none,
            );
            assert(all + none =~= out + choice_step(t, c).1);
        },
        None => {
            let none = Seq::<ChunkView>::empty();
            assert(told_fragments(none).len() == 0);
            lemma_same_slots(t, noted(t, c.finish_reason), before, out, none);
            assert(before + choice_calls(c) =~= before);
        },
    }
}

proof fn lemma_choices_are_told(
    t: TranslatorView,
    before: Seq<CallDeltaView>,
    out: Seq<ChunkView>,
    choices: Seq<ChoiceView>,
)
    requires
        slots_ok(t),
        holds_calls(t, before),
        tells_calls(t, before, out),
    ensures
        tells_calls(
            choices_step(t, choices).0,
            before + choices_calls(choices),
            out + choices_step(t, choices).1,
        ),
    decreases choices.len(),
{
    if choices.len() == 0 {
        assert(before + choices_calls(choices) =~= before);
        assert(out + choices_step(t, choices).1 =~= out);
    } else {
        let front = choices.drop_last();
        let p = choices_step(t, front);
        let q = choice_step(p.0, choices.last());
        lemma_choices_are_told(t, before, out, front);
        lemma_choices_are_held(t, before, front);
        lemma_choice_is_told(p.0, before + choices_calls(front), out + p.1, choices.last());
        assert(before + choices_calls(front) + choice_calls(choices.last()) =~= before
            + choices_calls(choices));
        assert(out + p.1 + q.1 =~= out + (p.1 + q.1));
    }
}

/// Over a whole stream every tool-call fragment is told once, in order, with its own arguments
/// and with the last id and name that came for its wire index by then.
pub proof fn law_fragments_are_told_as_they_come(payloads: Seq<PayloadView>)
    ensures
        ({
            let (t, out) = run(payloads);
            let calls = stream_calls(payloads);
            &&& told_fragments(out).len() == calls.len()
            &&& forall|k: int|
                0 <= k < calls.len() ==> told_fragments(out)[k] == #[trigger] fragment_at(
                    t,
                    calls,
                    k,
                )
        }),
{
    lemma_run_is_told(payloads);
    let (t, out) = run(payloads);
    let calls = stream_calls(payloads);
    assert forall|k: int| 0 <= k < calls.len() implies told_fragments(out)[k]
        == #[trigger] fragment_at(t, calls, k) by {
        assert(t.tool_slots.contains_key(calls[k].index));
    }
}

proof fn lemma_run_is_told(payloads: Seq<PayloadView>)
    ensures
        tells_calls(run(payloads).0, stream_calls(payloads), run(payloads).1),
    decreases payloads.len(),
{
    if payloads.len() > 0 {
        let front = payloads.drop_last();
        lemma_run_is_told(front);
        lemma_run_is_held(front);
        lemma_run_grows(front);
        let p = run(front);
        lemma_choices_are_told(p.0, stream_calls(front), p.1, payloads.last().choices);
        let q = choices_step(p.0, payloads.last().choices);
        let none = Seq::<ChunkView>::empty();
        assert(told_fragments(none).len() == 0);
        let r = run(payloads);
        lemma_same_slots(q.0, r.0, stream_calls(payloads), p.1 + q.1, none);
        assert(p.1 + q.1 + none =~= r.1);
    }
}

/// A stream has got anywhere exactly where something came that is shown or ends it: text,
/// reasoning, a tool-call fragment, or a finish reason.
pub proof fn law_progress_is_what_came(payloads: Seq<PayloadView>)
    ensures
        progressed(run(payloads).0) <==> {
            ||| stream_pieces(payloads, BlockType::Text).len() > 0
            ||| stream_pieces(payloads, BlockType::Reasoning).len() > 0
            ||| stream_calls(payloads).len() > 0
            ||| last_reason(payloads) is Some
        },
{
    lemma_run_grows(payloads);
    lemma_run_notes(payloads);
    law_blocks_say_what_came(payloads, BlockType::Text);
    law_blocks_say_what_came(payloads, BlockType::Reasoning);
    law_one_block_per_wire_index(payloads);
    let (t, out) = run(payloads);
    let begun = starts(out);
    let calls = stream_calls(payloads);
    assert(begun.len() == t.order.len());
    if calls.len() > 0 {
        assert(called(calls, calls.last().index));
        assert(t.tool_slots.contains_key(calls.last().index));
    }
    if t.order.len() > 0 {
        assert(begun[0] == (0int, t.order[0].kind));
        if begun[0].1 == BlockType::ToolCall {
            let wire = choose|wire: u64| #[trigger]
                t.tool_slots.contains_key(wire) && t.tool_slots[wire] == 0;
            assert(called(calls, wire));
        }
    }
}

/// `stop`, `tool_calls`, and `length` are the reasons that are known; every other one ends the
/// stream with an error that quotes it, under the code that it is given: the reason in upper
/// case.
pub proof fn law_reasons_have_their_finish(reason: Seq<char>, code: Seq<char>)
    ensures
        reason == "stop"@ <==> finish_with(reason, code) is Stop,
        reason == "tool_calls"@ <==> finish_with(reason, code) is ToolCalls,
        reason == "length"@ <==> finish_with(reason, code) is MaxTokens,
        finish_with(reason, code) matches FinishView::Error { failure } ==> failure.message
            == "model stopped: "@ + reason && failure.code == code,
        reason == "stop"@ <==> finish_of(reason) is Stop,
        reason == "tool_calls"@ <==> finish_of(reason) is ToolCalls,
        reason == "length"@ <==> finish_of(reason) is MaxTokens,
        finish_of(reason) matches FinishView::Error { failure } ==> failure.message
            == "model stopped: "@ + reason && failure.code == uppercase(reason),
{
    reveal_strlit("stop");
    reveal_strlit("tool_calls");
    reveal_strlit("length");
    assert("stop"@.len() == 4 && "tool_calls"@.len() == 10 && "length"@.len() == 6);
}

/// The counts of a stream are those that were sent: the output as it is, the cache hits by the
/// detailed field or else the flat one, and the input without them, never below zero.
pub proof fn law_usage_keeps_the_counts(usage: WireUsage)
    ensures
        ({
            let told = usage_of(usage);
            let detailed = match usage.prompt_tokens_details {
                Some(details) => details.cached_tokens,
                None => None,
            };
            &&& told.output_tokens == usage.completion_tokens
            &&& told.cache_read_tokens == if detailed is Some {
                detailed
            } else {
                usage.prompt_cache_hit_tokens
            }
            &&& told.cache_read_tokens is None ==> told.input_tokens == usage.prompt_tokens
            &&& told.cache_read_tokens matches Some(n) ==> told.input_tokens
                == vstd::math::max(usage.prompt_tokens - n, 0)
            &&& told.cache_write_tokens is None
            &&& told.reasoning_tokens == match usage.completion_tokens_details {
                Some(details) => details.reasoning_tokens,
                None => None,
            }
        }),
{
}

/// A payload that is no chunk of the wire format is quoted in the error, up to its first 120
/// characters.
pub proof fn law_malformed_payloads_are_quoted(payload: Seq<char>)
    ensures
        ({
            let quoted = payload.take(vstd::math::min(120, payload.len() as int));
            malformed(payload) == (ErrorView {
                message: "malformed SSE payload: "@ + quoted,
                code: "MALFORMED_RESPONSE"@,
            })
        }),
{
    assert(payload.take(payload.len() as int) =~= payload);
}

}
