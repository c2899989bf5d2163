//! One streamed request, from the connection snapshot to the last chunk. The host performs
//! the I/O; what to send, what an answer means, and when the stream is over is decided here.

use crate::adapter::{
    asked_wait, clone_overlay, ends_by_closing, http_failure, http_failure_view, is_success,
    og_endpoint, opt_str, overlay_view, provider_retry_after_ms, request_id, sent_id, wait_view,
    DeepSeekConnectionOptions, HeaderText, OverlayView, RequestOverlay, RetryAfter,
};
use crate::chat::{chunks, ChunkView, ErrorView, LlmError, StreamChunk};
use crate::stream_laws::{is_progress, law_feed_tells_growth, run};
use crate::table::Table;
use crate::text::{decimal, opt, str_eq, to_decimal};
use crate::translate::{
    closing, feed_step, fresh, malformed, progressed, slots_ok, Translator, TranslatorView,
};
use crate::wire::{PayloadView, WireChunk, WireErrorDetail};
use vstd::prelude::*;
use vstd::string::*;

verus! {

/// The payload that ends a stream.
pub const DONE: &'static str = "[DONE]";

/// The adapter's own state: the overlays of the sessions whose calls are routed. One is
/// written before a routed turn and removed when the run is over.
pub struct DeepSeekAdapter {
    overlays: Table<RequestOverlay>,
}

impl View for DeepSeekAdapter {
    type V = Map<Seq<char>, RequestOverlay>;

    closed spec fn view(&self) -> Map<Seq<char>, RequestOverlay> {
        self.overlays@
    }
}

/// The overlay of a call: that of its session, where the call has one and it is routed.
pub open spec fn overlay_at(
    overlays: Map<Seq<char>, RequestOverlay>,
    session: Option<Seq<char>>,
) -> Option<OverlayView> {
    match session {
        Some(id) => if overlays.contains_key(id) {
            Some(overlays[id]@)
        } else {
            None
        },
        None => None,
    }
}

impl DeepSeekAdapter {
    /// No session is routed.
    pub fn new() -> (r: Self)
        ensures
            r@ == Map::<Seq<char>, RequestOverlay>::empty(),
    {
        DeepSeekAdapter { overlays: Table::new() }
    }

    /// The overlays by session.
    pub fn overlays(&self) -> (r: &Table<RequestOverlay>)
        ensures
            r@ == self@,
    {
        &self.overlays
    }

    /// Routes a session's calls from here on.
    pub fn route(&mut self, session: String, overlay: RequestOverlay)
        ensures
            final(self)@ == old(self)@.insert(session@, overlay),
    {
        self.overlays.insert(session, overlay);
    }

    /// Routes a session's calls no more.
    pub fn unroute(&mut self, session: &str)
        ensures
            final(self)@ == old(self)@.remove(session@),
    {
        self.overlays.remove(session);
    }

    /// The overlay of a call.
    pub fn overlay_of(&self, session: &Option<String>) -> (r: Option<RequestOverlay>)
        ensures
            overlay_view(r) == overlay_at(self@, opt(*session)),
    {
        match session {
            Some(id) => match self.overlays.get(id.as_str()) {
                Some(overlay) => Some(clone_overlay(overlay)),
                None => None,
            },
            None => None,
        }
    }
}

impl Default for DeepSeekAdapter {
    fn default() -> (r: Self)
        ensures
            r@ == Map::<Seq<char>, RequestOverlay>::empty(),
    {
        DeepSeekAdapter::new()
    }
}

/// The caller gave the request up.
pub open spec fn aborted_view() -> ErrorView {
    ErrorView { message: "DeepSeek request aborted by caller"@, code: "ABORTED"@ }
}

/// The caller gave the request up.
pub fn aborted_error() -> (r: LlmError)
    ensures
        r@ == aborted_view(),
{
    LlmError::new("DeepSeek request aborted by caller".to_owned(), "ABORTED")
}

/// The error of a request that could not be sent. It names the endpoint, unless the caller
/// gave the request up.
pub fn send_failed(base_url: &str, aborted: bool) -> (r: LlmError)
    ensures
        r@ == if aborted {
            aborted_view()
        } else {
            ErrorView {
                message: "DeepSeek API request to "@ + base_url@ + " failed"@,
                code: "TRANSPORT"@,
            }
        },
{
    if aborted {
        return aborted_error();
    }
    let mut message = "DeepSeek API request to ".to_owned();
    message.append(base_url);
    message.append(" failed");
    LlmError::new(message, "TRANSPORT")
}

/// What an answer's head says: its status, the headers that an error reads, and the error in
/// its body, where it decodes to one.
pub struct Answer {
    pub status: u16,
    pub retry_after: HeaderText,
    pub request_id: Option<HeaderText>,
    pub deepseek_request_id: Option<HeaderText>,
    pub error: Option<WireErrorDetail>,
}

/// An answer outside 2xx.
#[derive(Debug, PartialEq)]
pub struct HttpFailure {
    pub error: LlmError,
    pub status: u16,
    pub retry_after: Option<RetryAfter>,
    pub request_id: Option<String>,
}

/// Whether the stream can be read, or what went wrong. The codes are those of
/// [`crate::adapter::status_code`].
pub fn check_answer(
    answer: &Answer,
    now_ms: i64,
    quota_code: Option<&str>,
    window_code: Option<&str>,
) -> (r: Result<(), HttpFailure>)
    ensures
        r is Ok <==> 200 <= answer.status < 300,
        r matches Err(failure) ==> {
            &&& failure.error@ == http_failure_view(
                answer.status,
                answer.error,
                opt_str(quota_code),
                opt_str(window_code),
            )
            &&& failure.status == answer.status
            &&& wait_view(failure.retry_after) == asked_wait(opt(answer.retry_after), now_ms)
            &&& opt(failure.request_id) == sent_id(answer.request_id, answer.deepseek_request_id)
        },
{
    if is_success(answer.status) {
        return Ok(());
    }
    let wait = match &answer.retry_after {
        Some(text) => provider_retry_after_ms(Some(text.as_str()), now_ms),
        None => provider_retry_after_ms(None, now_ms),
    };
    Err(
        HttpFailure {
            error: http_failure(answer.status, &answer.error, quota_code, window_code),
            status: answer.status,
            retry_after: wait,
            request_id: request_id(&answer.request_id, &answer.deepseek_request_id),
        },
    )
}

/// One payload of the stream, and what it decodes to. The sentinel is not decoded.
pub struct Payload {
    pub text: String,
    pub chunk: Option<WireChunk>,
}

/// The mathematical value of a [`Payload`].
pub struct ItemView {
    pub text: Seq<char>,
    pub chunk: Option<PayloadView>,
}

impl View for Payload {
    type V = ItemView;

    open spec fn view(&self) -> ItemView {
        ItemView {
            text: self.text@,
            chunk: match self.chunk {
                Some(c) => Some(c@),
                None => None,
            },
        }
    }
}

/// The mathematical values of a list of payloads.
pub open spec fn item_views(s: Seq<Payload>) -> Seq<ItemView> {
    s.map_values(|p: Payload| p@)
}

/// How one read of the body ended.
pub enum ReadEvent {
    /// The caller gave the request up before the read.
    Aborted,
    /// Nothing came in time.
    TimedOut,
    /// The body is over.
    Ended,
    /// The transport failed, perhaps because the caller gave the request up.
    Failed { aborted: bool },
    /// Bytes came; they completed these payloads.
    Payloads(Vec<Payload>),
}

/// What follows a read.
#[derive(Debug, PartialEq)]
pub enum Next {
    /// Read on.
    Read,
    /// The stream is over.
    Finished,
    /// The stream failed.
    Failed(LlmError),
}

/// The mathematical value of a [`Next`].
pub enum NextView {
    Read,
    Finished,
    Failed(ErrorView),
}

impl View for Next {
    type V = NextView;

    open spec fn view(&self) -> NextView {
        match self {
            Next::Read => NextView::Read,
            Next::Finished => NextView::Finished,
            Next::Failed(e) => NextView::Failed(e@),
        }
    }
}

/// What a read gives: the chunks to hand on, and what follows.
pub struct Outcome {
    pub chunks: Vec<StreamChunk>,
    pub next: Next,
}

/// What a read does to the translation, what it hands on, and what follows.
pub struct Turn {
    pub state: TranslatorView,
    pub chunks: Seq<ChunkView>,
    pub next: NextView,
}

/// The translation of a stream that is closed.
pub open spec fn closed(t: TranslatorView) -> TranslatorView {
    TranslatorView { finish: None, usage: None, ..t }
}

/// The payloads one after the other. The sentinel closes the stream, a payload that does not
/// decode fails it, and nothing behind either counts.
pub open spec fn payloads_turn(t: TranslatorView, items: Seq<ItemView>) -> Turn
    decreases items.len(),
{
    if items.len() == 0 {
        Turn { state: t, chunks: Seq::empty(), next: NextView::Read }
    } else if items[0].text == DONE@ {
        Turn { state: closed(t), chunks: closing(t), next: NextView::Finished }
    } else {
        match items[0].chunk {
            None => Turn {
                state: t,
                chunks: Seq::empty(),
                next: NextView::Failed(malformed(items[0].text)),
            },
            Some(payload) => {
                let (u, out) = feed_step(t, payload);
                let rest = payloads_turn(u, items.skip(1));
                Turn { state: rest.state, chunks: out + rest.chunks, next: rest.next }
            },
        }
    }
}

/// The connection facts that a stream's reads depend on.
pub struct LinkView {
    pub base_url: Seq<char>,
    pub idle_timeout_ms: u64,
    /// The endpoint ends a finished stream by closing it.
    pub closes: bool,
}

/// What a failed read is reported as.
pub open spec fn failed(t: TranslatorView, error: ErrorView) -> Turn {
    Turn { state: t, chunks: Seq::empty(), next: NextView::Failed(error) }
}

/// One read.
pub open spec fn read_turn(link: LinkView, t: TranslatorView, event: ReadEvent) -> Turn {
    match event {
        ReadEvent::Aborted => failed(t, aborted_view()),
        ReadEvent::TimedOut => failed(
            t,
            ErrorView {
                message: "DeepSeek stream idle timeout after "@ + decimal(
                    link.idle_timeout_ms as int,
                ) + "ms"@,
                code: "TIMEOUT"@,
            },
        ),
        ReadEvent::Failed { aborted } => failed(
            t,
            if aborted {
                aborted_view()
            } else {
                ErrorView {
                    message: "DeepSeek API stream from "@ + link.base_url + " failed"@,
                    code: "TRANSPORT"@,
                }
            },
        ),
        ReadEvent::Ended => if link.closes && progressed(t) {
            Turn { state: closed(t), chunks: closing(t), next: NextView::Finished }
        } else {
            failed(
                t,
                ErrorView { message: "SSE stream ended without [DONE]"@, code: "STREAM_CLOSED"@ },
            )
        },
        ReadEvent::Payloads(items) => payloads_turn(t, item_views(items@)),
    }
}

/// One stream that is being read.
pub struct Exchange {
    base_url: String,
    idle_timeout_ms: u64,
    closes: bool,
    translator: Translator,
}

impl Exchange {
    pub closed spec fn wf(self) -> bool {
        self.translator.wf()
    }

    /// The connection facts that the reads depend on.
    pub closed spec fn link(self) -> LinkView {
        LinkView {
            base_url: self.base_url@,
            idle_timeout_ms: self.idle_timeout_ms,
            closes: self.closes,
        }
    }

    /// The translation so far.
    pub closed spec fn state(self) -> TranslatorView {
        self.translator@
    }

    /// What the laws of a stream rest on.
    pub proof fn lemma_wf(self)
        requires
            self.wf(),
        ensures
            slots_ok(self.state()),
    {
        self.translator.lemma_wf();
    }

    /// A stream of the connection of which nothing has been read.
    pub fn new<R>(connection: &DeepSeekConnectionOptions<R>) -> (r: Self)
        ensures
            r.wf(),
            r.link() == (LinkView {
                base_url: connection.base_url@,
                idle_timeout_ms: connection.stream_idle_timeout_ms,
                closes: ends_by_closing(connection.base_url@, connection.api_key_env@),
            }),
            r.state() == fresh(),
    {
        Exchange {
            base_url: connection.base_url.clone(),
            idle_timeout_ms: connection.stream_idle_timeout_ms,
            closes: og_endpoint(connection),
            translator: Translator::new(),
        }
    }

    /// How long one read may take, in milliseconds.
    pub fn patience_ms(&self) -> (r: u64)
        ensures
            r == if self.link().idle_timeout_ms == 0 {
                1
            } else {
                self.link().idle_timeout_ms
            },
    {
        if self.idle_timeout_ms == 0 {
            1
        } else {
            self.idle_timeout_ms
        }
    }

    fn take_payloads(&mut self, items: &Vec<Payload>) -> (r: Outcome)
        requires
            old(self).wf(),
        ensures
            final(self).wf(),
            final(self).link() == old(self).link(),
            final(self).state() == payloads_turn(old(self).state(), item_views(items@)).state,
            chunks(r.chunks@) == payloads_turn(old(self).state(), item_views(items@)).chunks,
            r.next@ == payloads_turn(old(self).state(), item_views(items@)).next,
    {
        let ghost all = item_views(items@);
        let ghost whole = payloads_turn(self.state(), all);
        let ghost link = self.link();
        let mut out: Vec<StreamChunk> = Vec::new();
        let mut i: usize = 0;
        assert(all.skip(0) =~= all);
        assert(chunks(out@) =~= Seq::<ChunkView>::empty());
        assert(chunks(out@) + whole.chunks =~= whole.chunks);
        while i < items.len()
            invariant
                self.wf(),
                self.link() == link,
                link == old(self).link(),
                i <= items@.len(),
                all == item_views(items@),
                whole == payloads_turn(old(self).state(), all),
                whole.state == payloads_turn(self.state(), all.skip(i as int)).state,
                whole.chunks == chunks(out@) + payloads_turn(
                    self.state(),
                    all.skip(i as int),
                ).chunks,
                whole.next == payloads_turn(self.state(), all.skip(i as int)).next,
            decreases items@.len() - i,
        {
            let item = &items[i];
            let ghost told = chunks(out@);
            let ghost rest = all.skip(i as int);
            let ghost t = self.state();
            assert(rest[0] == item@);
            assert(rest.skip(1) =~= all.skip(i + 1));
            if str_eq(item.text.as_str(), DONE) {
                let mut more = self.translator.done();
                let ghost added = chunks(more@);
                out.append(&mut more);
                assert(chunks(out@) =~= told + added);
                return Outcome { chunks: out, next: Next::Finished };
            }
            match self.translator.feed(item.text.as_str(), item.chunk.as_ref()) {
                Ok(mut more) => {
                    let ghost added = chunks(more@);
                    out.append(&mut more);
                    assert(chunks(out@) =~= told + added);
                    let ghost tail = payloads_turn(self.state(), all.skip(i + 1)).chunks;
                    assert(told + (added + tail) =~= (told + added) + tail);
                },
                Err(error) => {
                    assert(told + Seq::<ChunkView>::empty() =~= told);
                    return Outcome { chunks: out, next: Next::Failed(error) };
                },
            }
            i = i + 1;
        }
        assert(all.skip(i as int) =~= Seq::<ItemView>::empty());
        assert(chunks(out@) + Seq::<ChunkView>::empty() =~= chunks(out@));
        Outcome { chunks: out, next: Next::Read }
    }

    /// Takes the outcome of one read.
    pub fn read(&mut self, event: ReadEvent) -> (r: Outcome)
        requires
            old(self).wf(),
        ensures
            final(self).wf(),
            final(self).link() == old(self).link(),
            final(self).state() == read_turn(old(self).link(), old(self).state(), event).state,
            chunks(r.chunks@) == read_turn(old(self).link(), old(self).state(), event).chunks,
            r.next@ == read_turn(old(self).link(), old(self).state(), event).next,
    {
        let nothing: Vec<StreamChunk> = Vec::new();
        assert(chunks(nothing@) =~= Seq::<ChunkView>::empty());
        match event {
            ReadEvent::Aborted => Outcome { chunks: nothing, next: Next::Failed(aborted_error()) },
            ReadEvent::TimedOut => {
                let mut message = "DeepSeek stream idle timeout after ".to_owned();
                message.append(to_decimal(self.idle_timeout_ms).as_str());
                message.append("ms");
                Outcome {
                    chunks: nothing,
                    next: Next::Failed(LlmError::new(message, "TIMEOUT")),
                }
            },
            ReadEvent::Failed { aborted } => {
                if aborted {
                    return Outcome { chunks: nothing, next: Next::Failed(aborted_error()) };
                }
                let mut message = "DeepSeek API stream from ".to_owned();
                message.append(self.base_url.as_str());
                message.append(" failed");
                Outcome {
                    chunks: nothing,
                    next: Next::Failed(LlmError::new(message, "TRANSPORT")),
                }
            },
            ReadEvent::Ended => {
                // The 0G Router closes a finished completion without the sentinel; elsewhere
                // the end of the body cuts the stream short.
                if self.closes && self.translator.has_terminal_progress() {
                    return Outcome { chunks: self.translator.done(), next: Next::Finished };
                }
                Outcome {
                    chunks: nothing,
                    next: Next::Failed(
                        LlmError::new("SSE stream ended without [DONE]".to_owned(), "STREAM_CLOSED"),
                    ),
                }
            },
            ReadEvent::Payloads(items) => self.take_payloads(&items),
        }
    }
}

/// The chunks hold a finish exactly where they end a finished stream, and then as the last
/// chunk alone.
pub open spec fn finish_marks_the_end(turn: Turn) -> bool {
    &&& turn.next is Finished ==> turn.chunks.len() > 0 && turn.chunks.last() is Finish
    &&& forall|k: int|
        0 <= k < turn.chunks.len() && (#[trigger] turn.chunks[k]) is Finish ==> turn.next
            is Finished && k == turn.chunks.len() - 1
}

proof fn lemma_payloads_finish(t: TranslatorView, items: Seq<ItemView>)
    requires
        slots_ok(t),
    ensures
        finish_marks_the_end(payloads_turn(t, items)),
        slots_ok(payloads_turn(t, items).state),
    decreases items.len(),
{
    if items.len() > 0 && items[0].text != DONE@ {
        if let Some(payload) = items[0].chunk {
            law_feed_tells_growth(t, payload);
            let (u, out) = feed_step(t, payload);
            lemma_payloads_finish(u, items.skip(1));
            let rest = payloads_turn(u, items.skip(1));
            let turn = payloads_turn(t, items);
            assert(turn.chunks == out + rest.chunks);
            assert forall|k: int|
                0 <= k < turn.chunks.len() && (#[trigger] turn.chunks[k]) is Finish implies turn.next
                is Finished && k == turn.chunks.len() - 1 by {
                if k < out.len() {
                    assert(is_progress(out[k]));
                } else {
                    assert(rest.chunks[k - out.len()] is Finish);
                }
            }
        }
    }
}

/// A read hands on a finish exactly where it ends the stream, as its last chunk, once; a read
/// that fails or leaves the stream open hands on none.
pub proof fn law_finish_marks_the_end(link: LinkView, t: TranslatorView, event: ReadEvent)
    requires
        slots_ok(t),
    ensures
        finish_marks_the_end(read_turn(link, t, event)),
        slots_ok(read_turn(link, t, event).state),
{
    if let ReadEvent::Payloads(items) = event {
        lemma_payloads_finish(t, item_views(items@));
    }
}

/// How the payloads are spread over the reads does not matter: where the first ones leave the
/// stream open, reading all at once is reading the one part and then the other.
pub proof fn law_reads_compose(t: TranslatorView, a: Seq<ItemView>, b: Seq<ItemView>)
    requires
        payloads_turn(t, a).next is Read,
    ensures
        ({
            let first = payloads_turn(t, a);
            let second = payloads_turn(first.state, b);
            payloads_turn(t, a + b) == (Turn {
                state: second.state,
                chunks: first.chunks + second.chunks,
                next: second.next,
            })
        }),
    decreases a.len(),
{
    if a.len() == 0 {
        assert(a + b =~= b);
        let second = payloads_turn(t, b);
        assert(Seq::<ChunkView>::empty() + second.chunks =~= second.chunks);
    } else {
        let (u, out) = feed_step(t, a[0].chunk->0);
        law_reads_compose(u, a.skip(1), b);
        assert((a + b).skip(1) =~= a.skip(1) + b);
        assert((a + b)[0] == a[0]);
        let rest = payloads_turn(u, a.skip(1));
        let second = payloads_turn(rest.state, b);
        assert(out + (rest.chunks + second.chunks) =~= (out + rest.chunks) + second.chunks);
    }
}

/// All the reads of one exchange: those behind its end are not made.
pub open spec fn exchange_turn(link: LinkView, events: Seq<ReadEvent>) -> Turn
    decreases events.len(),
{
    if events.len() == 0 {
        Turn { state: fresh(), chunks: Seq::empty(), next: NextView::Read }
    } else {
        let before = exchange_turn(link, events.drop_last());
        if before.next is Read {
            let turn = read_turn(link, before.state, events.last());
            Turn { chunks: before.chunks + turn.chunks, ..turn }
        } else {
            before
        }
    }
}

/// Over all its reads an exchange ends once, and nothing follows the end: with one finish, its
/// last chunk, or with one error and no finish at all. As long as it goes on there is neither.
pub proof fn law_an_exchange_ends_once(link: LinkView, events: Seq<ReadEvent>)
    ensures
        finish_marks_the_end(exchange_turn(link, events)),
        slots_ok(exchange_turn(link, events).state),
        forall|n: int|
            0 <= n <= events.len() && !((#[trigger] exchange_turn(link, events.take(n))).next
                is Read) ==> exchange_turn(link, events) == exchange_turn(link, events.take(n)),
    decreases events.len(),
{
    if events.len() > 0 {
        let front = events.drop_last();
        law_an_exchange_ends_once(link, front);
        let before = exchange_turn(link, front);
        let whole = exchange_turn(link, events);
        if before.next is Read {
            law_finish_marks_the_end(link, before.state, events.last());
            let turn = read_turn(link, before.state, events.last());
            assert forall|k: int|
                0 <= k < whole.chunks.len() && (#[trigger] whole.chunks[k])
                    is Finish implies whole.next is Finished && k == whole.chunks.len() - 1 by {
                if k < before.chunks.len() {
                    assert(before.chunks[k] is Finish);
                } else {
                    assert(turn.chunks[k - before.chunks.len()] is Finish);
                }
            }
        }
        assert forall|n: int|
            0 <= n <= events.len() && !((#[trigger] exchange_turn(link, events.take(n))).next
                is Read) implies whole == exchange_turn(link, events.take(n)) by {
            if n == events.len() {
                assert(events.take(n) =~= events);
            } else {
                assert(events.take(n) =~= front.take(n));
                assert(!(exchange_turn(link, front.take(n)).next is Read));
            }
        }
    }
}

/// Nothing behind the sentinel or behind a payload that does not decode counts.
pub proof fn law_nothing_follows_the_end(t: TranslatorView, a: Seq<ItemView>, b: Seq<ItemView>)
    requires
        !(payloads_turn(t, a).next is Read),
    ensures
        payloads_turn(t, a + b) == payloads_turn(t, a),
    decreases a.len(),
{
    assert((a + b)[0] == a[0]);
    if a[0].text != DONE@ && a[0].chunk is Some {
        let (u, out) = feed_step(t, a[0].chunk->0);
        law_nothing_follows_the_end(u, a.skip(1), b);
        assert((a + b).skip(1) =~= a.skip(1) + b);
    }
}

/// The end of the body finishes a routed stream that got anywhere, with the same chunks that
/// the sentinel would have given; every other stream it cuts short.
pub proof fn law_only_the_router_may_close(link: LinkView, t: TranslatorView)
    ensures
        ({
            let end = read_turn(link, t, ReadEvent::Ended);
            let sentinel = payloads_turn(t, seq![ItemView { text: DONE@, chunk: None }]);
            if link.closes && progressed(t) {
                end == sentinel
            } else {
                end.next matches NextView::Failed(e) && e.code == "STREAM_CLOSED"@
                    && end.chunks.len() == 0
            }
        }),
{
}

/// Routing one session leaves every other call's endpoint, credential, and headers alone, and
/// when it is taken back the session's calls are as they were.
pub proof fn law_routing_is_per_session(
    overlays: Map<Seq<char>, RequestOverlay>,
    session: Seq<char>,
    overlay: RequestOverlay,
    other: Option<Seq<char>>,
)
    ensures
        overlay_at(overlays.insert(session, overlay), Some(session)) == Some(overlay@),
        other != Some(session) ==> overlay_at(overlays.insert(session, overlay), other)
            == overlay_at(overlays, other),
        overlay_at(overlays.insert(session, overlay).remove(session), Some(session)) is None,
        other != Some(session) ==> overlay_at(
            overlays.insert(session, overlay).remove(session),
            other,
        ) == overlay_at(overlays, other),
{
}

/// What a list of payloads decodes to.
pub open spec fn decoded(items: Seq<ItemView>) -> Seq<PayloadView> {
    items.map_values(|item: ItemView| item.chunk->0)
}

/// Every payload decodes, and none is the sentinel.
pub open spec fn all_decode(items: Seq<ItemView>) -> bool {
    forall|i: int|
        0 <= i < items.len() ==> (#[trigger] items[i]).text != "[DONE]"@ && items[i].chunk is Some
}

proof fn lemma_payloads_run(items: Seq<ItemView>)
    requires
        all_decode(items),
    ensures
        payloads_turn(fresh(), items) == (Turn {
            state: run(decoded(items)).0,
            chunks: run(decoded(items)).1,
            next: NextView::Read,
        }),
    decreases items.len(),
{
    if items.len() > 0 {
        let front = items.drop_last();
        let last = items[items.len() - 1];
        assert forall|i: int| 0 <= i < front.len() implies (#[trigger] front[i]).text != "[DONE]"@
            && front[i].chunk is Some by {
            assert(front[i] == items[i]);
        }
        lemma_payloads_run(front);
        assert(items =~= front + seq![last]);
        law_reads_compose(fresh(), front, seq![last]);
        assert(decoded(items).drop_last() =~= decoded(front));
        assert(decoded(items).last() == last.chunk->0);
        let t = payloads_turn(fresh(), front).state;
        let (u, out) = feed_step(t, last.chunk->0);
        assert(seq![last].skip(1) =~= Seq::<ItemView>::empty());
        assert(out + Seq::<ChunkView>::empty() =~= out);
        reveal_with_fuel(payloads_turn, 2);
        assert(payloads_turn(t, seq![last]) == (Turn {
            state: u,
            chunks: out,
            next: NextView::Read,
        }));
    }
}

/// An exchange hands on what its payloads translate to, all of it and in order, and the sentinel
/// closes it with what the translation closes with.
pub proof fn law_payloads_are_translated(items: Seq<ItemView>, sentinel: ItemView)
    requires
        all_decode(items),
        sentinel.text == "[DONE]"@,
    ensures
        ({
            let (t, out) = run(decoded(items));
            let open = payloads_turn(fresh(), items);
            let over = payloads_turn(fresh(), items.push(sentinel));
            &&& open.next is Read && open.chunks == out && open.state == t
            &&& over.next is Finished && over.chunks == out + closing(t)
        }),
{
    lemma_payloads_run(items);
    assert(items.push(sentinel) =~= items + seq![sentinel]);
    law_reads_compose(fresh(), items, seq![sentinel]);
}

/// A payload that does not decode fails the exchange with a quote of it, behind all that came
/// before it.
pub proof fn law_an_undecodable_payload_fails_the_exchange(items: Seq<ItemView>, bad: ItemView)
    requires
        all_decode(items),
        bad.text != "[DONE]"@,
        bad.chunk is None,
    ensures
        ({
            let turn = payloads_turn(fresh(), items.push(bad));
            &&& turn.next == NextView::Failed(malformed(bad.text))
            &&& turn.chunks == run(decoded(items)).1
        }),
{
    lemma_payloads_run(items);
    assert(items.push(bad) =~= items + seq![bad]);
    law_reads_compose(fresh(), items, seq![bad]);
    let out = run(decoded(items)).1;
    assert(out + Seq::<ChunkView>::empty() =~= out);
}

/// A read that fails hands on nothing and says why: the caller's abort, the time that was waited
/// for, or the endpoint that broke off.
pub proof fn law_reads_fail_with_their_reason(link: LinkView, t: TranslatorView)
    ensures
        ({
            let aborted = ErrorView {
                message: "DeepSeek request aborted by caller"@,
                code: "ABORTED"@,
            };
            let fails = |event: ReadEvent, error: ErrorView|
                {
                    let turn = read_turn(link, t, event);
                    turn.next == NextView::Failed(error) && turn.chunks.len() == 0 && turn.state
                        == t
                };
            &&& fails(ReadEvent::Aborted, aborted)
            &&& fails(ReadEvent::Failed { aborted: true }, aborted)
            &&& fails(
                ReadEvent::Failed { aborted: false },
                ErrorView {
                    message: "DeepSeek API stream from "@ + link.base_url + " failed"@,
                    code: "TRANSPORT"@,
                },
            )
            &&& fails(
                ReadEvent::TimedOut,
                ErrorView {
                    message: "DeepSeek stream idle timeout after "@ + decimal(
                        link.idle_timeout_ms as int,
                    ) + "ms"@,
                    code: "TIMEOUT"@,
                },
            )
            &&& !link.closes || !progressed(t) ==> fails(
                ReadEvent::Ended,
                ErrorView { message: "SSE stream ended without [DONE]"@, code: "STREAM_CLOSED"@ },
            )
        }),
{
}

/// The payloads of a read are read as they are.
pub proof fn law_a_read_takes_its_payloads(link: LinkView, t: TranslatorView, items: Vec<Payload>)
    ensures
        read_turn(link, t, ReadEvent::Payloads(items)) == payloads_turn(t, item_views(items@)),
{
}

/// Payloads are read one for one.
pub proof fn law_item_views_are_one_for_one(s: Seq<Payload>, i: int)
    ensures
        item_views(s).len() == s.len(),
        0 <= i < s.len() ==> item_views(s)[i] == s[i]@,
{
}

}
