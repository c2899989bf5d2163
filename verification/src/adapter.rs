//! The chat-completions adapter's decisions: model discovery, the HTTP call of one request,
//! and what an answer outside 2xx means. Connection facts and the credential of one request
//! come from one snapshot.

use crate::chat::{message_views, CallPurpose, ErrorView, GenerateOptions, LlmError};
use crate::serialize::{
    image_refused, is_request, request_thinking, serialize_request, text_only, RequestDefaults,
    ThinkingView,
};
use crate::text::{
    all_digits, chars_of, clone_opt, decimal, has_part, has_prefix, join, joined, only_digits, opt,
    opt_is, str_contains, str_eq, str_starts_with, to_decimal, views,
};
use crate::wire::{WireErrorDetail, WireRequest};
use vstd::prelude::*;
use vstd::string::*;

verus! {

/// Longest idle interval while a stream read is outstanding, unless configured otherwise.
pub const DEFAULT_STREAM_IDLE_TIMEOUT_MS: u64 = 300_000;

/// Context capacity of request and response together, unless configured otherwise.
pub const DEFAULT_CONTEXT_WINDOW: u64 = 1_000_000;

/// Output tokens of one request, unless configured otherwise.
pub const DEFAULT_MAX_TOKENS: u64 = 256_000;

/// One model that the adapter advertises.
#[derive(Debug, Clone, Default, PartialEq)]
pub struct DeepSeekCatalogModel {
    /// The model id on the wire.
    pub id: String,
    /// Label; the id where there is none.
    pub name: Option<String>,
    pub description: Option<String>,
    /// Context capacity; the deployment's default where there is none.
    pub context_window: Option<u64>,
    /// Output cap; the deployment's default where there is none.
    pub max_tokens: Option<u64>,
}

/// Connection facts of one operation. `R` is the provider's retry policy, which the adapter
/// only hands on.
#[derive(Debug)]
pub struct DeepSeekConnectionOptions<R> {
    /// Endpoint; `/chat/completions` is appended.
    pub base_url: String,
    /// Name of the credential, which travels with the endpoint.
    pub api_key_env: String,
    /// Defaults of every call.
    pub defaults: RequestDefaults,
    /// Output cap of a model without one.
    pub max_tokens: u64,
    /// Context capacity of a model without one.
    pub default_context_window: u64,
    /// Advertised models; requests are not restricted to them.
    pub models: Vec<DeepSeekCatalogModel>,
    /// Longest idle time while one stream read is outstanding.
    pub stream_idle_timeout_ms: u64,
    pub retry_policy: R,
    /// More HTTP headers for this snapshot.
    pub extra_headers: Vec<(String, String)>,
}

/// What one session's calls to the 0G Router are sent with. Present for routed calls only.
#[derive(Debug)]
pub struct RequestOverlay {
    pub base_url: String,
    pub api_key_env: String,
    pub headers: Vec<(String, String)>,
    pub verify_tee: bool,
}

/// The characters of a list of headers.
pub open spec fn header_views(headers: Seq<(String, String)>) -> Seq<(Seq<char>, Seq<char>)> {
    headers.map_values(|h: (String, String)| (h.0@, h.1@))
}

/// The mathematical value of a [`RequestOverlay`].
pub struct OverlayView {
    pub base_url: Seq<char>,
    pub api_key_env: Seq<char>,
    pub headers: Seq<(Seq<char>, Seq<char>)>,
    pub verify_tee: bool,
}

impl View for RequestOverlay {
    type V = OverlayView;

    open spec fn view(&self) -> OverlayView {
        OverlayView {
            base_url: self.base_url@,
            api_key_env: self.api_key_env@,
            headers: header_views(self.headers@),
            verify_tee: self.verify_tee,
        }
    }
}

fn push_headers(out: &mut Vec<(String, String)>, more: &Vec<(String, String)>)
    ensures
        header_views(final(out)@) == header_views(old(out)@) + header_views(more@),
{
    let ghost before = header_views(out@);
    let ghost all = header_views(more@);
    let mut i: usize = 0;
    assert(header_views(out@) =~= before + all.take(0));
    while i < more.len()
        invariant
            i <= more@.len(),
            all == header_views(more@),
            header_views(out@) == before + all.take(i as int),
        decreases more@.len() - i,
    {
        let ghost told = header_views(out@);
        out.push((more[i].0.clone(), more[i].1.clone()));
        assert(out@.last().0@ == all[i as int].0 && out@.last().1@ == all[i as int].1);
        assert(header_views(out@) =~= told.push(all[i as int]));
        assert(all.take(i + 1) =~= all.take(i as int).push(all[i as int]));
        i = i + 1;
        assert(header_views(out@) =~= before + all.take(i as int));
    }
    assert(all.take(i as int) =~= all);
}

fn push_header(out: &mut Vec<(String, String)>, name: &str, value: String)
    ensures
        header_views(final(out)@) == header_views(old(out)@).push((name@, value@)),
{
    let ghost before = header_views(out@);
    out.push((name.to_owned(), value));
    assert(header_views(out@) =~= before.push((name@, value@)));
}

/// A copy of an overlay.
pub fn clone_overlay(overlay: &RequestOverlay) -> (r: RequestOverlay)
    ensures
        r@ == overlay@,
{
    let mut headers: Vec<(String, String)> = Vec::new();
    assert(header_views(headers@) =~= Seq::<(Seq<char>, Seq<char>)>::empty());
    push_headers(&mut headers, &overlay.headers);
    assert(header_views(headers@) =~= header_views(overlay.headers@));
    RequestOverlay {
        base_url: overlay.base_url.clone(),
        api_key_env: overlay.api_key_env.clone(),
        headers,
        verify_tee: overlay.verify_tee,
    }
}

/// A model as the provider lists it. Every model of this route takes text alone.
#[derive(Debug, PartialEq)]
pub struct LlmModelInfo {
    pub provider: String,
    pub id: String,
    pub name: String,
    pub description: Option<String>,
    pub text_only: bool,
}

/// The mathematical value of an [`LlmModelInfo`].
pub struct InfoView {
    pub provider: Seq<char>,
    pub id: Seq<char>,
    pub name: Seq<char>,
    pub description: Option<Seq<char>>,
    pub text_only: bool,
}

impl View for LlmModelInfo {
    type V = InfoView;

    open spec fn view(&self) -> InfoView {
        InfoView {
            provider: self.provider@,
            id: self.id@,
            name: self.name@,
            description: opt(self.description),
            text_only: self.text_only,
        }
    }
}

/// An advertised model as the provider lists it.
pub open spec fn info_of(provider: Seq<char>, m: DeepSeekCatalogModel) -> InfoView {
    InfoView {
        provider,
        id: m.id@,
        name: match m.name {
            Some(name) => name@,
            None => m.id@,
        },
        description: opt(m.description),
        text_only: true,
    }
}

/// A model that is not advertised, as the provider lists it.
pub open spec fn bare_info(provider: Seq<char>, id: Seq<char>) -> InfoView {
    InfoView { provider, id, name: id, description: None, text_only: true }
}

/// An advertised model as the provider lists it.
pub fn model_info(provider: &str, model: &DeepSeekCatalogModel) -> (r: LlmModelInfo)
    ensures
        r@ == info_of(provider@, *model),
{
    LlmModelInfo {
        provider: provider.to_owned(),
        id: model.id.clone(),
        name: match &model.name {
            Some(name) => name.clone(),
            None => model.id.clone(),
        },
        description: clone_opt(&model.description),
        text_only: true,
    }
}

/// The provider's id and label.
pub fn provider_info(provider: &str) -> (r: (String, String))
    ensures
        r.0@ == provider@,
        r.1@ == "DeepSeek"@,
{
    (provider.to_owned(), "DeepSeek".to_owned())
}

/// The advertised models, in order.
pub fn list_models<R>(connection: &DeepSeekConnectionOptions<R>, provider: &str) -> (r: Vec<
    LlmModelInfo,
>)
    ensures
        r@.len() == connection.models@.len(),
        forall|i: int|
            0 <= i < r@.len() ==> (#[trigger] r@[i])@ == info_of(provider@, connection.models@[i]),
{
    let mut out: Vec<LlmModelInfo> = Vec::new();
    let mut i: usize = 0;
    while i < connection.models.len()
        invariant
            i <= connection.models@.len(),
            out@.len() == i,
            forall|k: int|
                0 <= k < i ==> (#[trigger] out@[k])@ == info_of(provider@, connection.models@[k]),
        decreases connection.models@.len() - i,
    {
        out.push(model_info(provider, &connection.models[i]));
        i = i + 1;
    }
    out
}

/// One reasoning effort: its id and its label.
#[derive(Debug, PartialEq)]
pub struct LlmReasoningEffortInfo {
    pub id: String,
    pub name: String,
}

/// The ids and labels of the efforts on offer.
pub open spec fn effort_views(off_only: bool) -> Seq<(Seq<char>, Seq<char>)> {
    if off_only {
        seq![("off"@, "Off"@)]
    } else {
        seq![("off"@, "Off"@), ("high"@, "High"@), ("max"@, "Max"@)]
    }
}

/// The ids and labels of a list of efforts.
pub open spec fn effort_pairs(s: Seq<LlmReasoningEffortInfo>) -> Seq<(Seq<char>, Seq<char>)> {
    s.map_values(|e: LlmReasoningEffortInfo| (e.id@, e.name@))
}

/// The efforts on offer.
pub fn efforts(off_only: bool) -> (r: Vec<LlmReasoningEffortInfo>)
    ensures
        effort_pairs(r@) == effort_views(off_only),
{
    let mut list = vec![LlmReasoningEffortInfo { id: "off".to_owned(), name: "Off".to_owned() }];
    if !off_only {
        list.push(LlmReasoningEffortInfo { id: "high".to_owned(), name: "High".to_owned() });
        list.push(LlmReasoningEffortInfo { id: "max".to_owned(), name: "Max".to_owned() });
    }
    assert(effort_pairs(list@) =~= effort_views(off_only));
    list
}

/// A model with everything that is known of it.
#[derive(Debug, PartialEq)]
pub struct LlmResolvedModelInfo {
    pub info: LlmModelInfo,
    pub context_window: u64,
    pub default_max_tokens: u64,
    pub efforts: Vec<LlmReasoningEffortInfo>,
    pub default_effort: String,
}

/// The mathematical value of an [`LlmResolvedModelInfo`].
pub struct ResolvedView {
    pub info: InfoView,
    pub context_window: u64,
    pub default_max_tokens: u64,
    pub efforts: Seq<(Seq<char>, Seq<char>)>,
    pub default_effort: Seq<char>,
}

impl View for LlmResolvedModelInfo {
    type V = ResolvedView;

    open spec fn view(&self) -> ResolvedView {
        ResolvedView {
            info: self.info@,
            context_window: self.context_window,
            default_max_tokens: self.default_max_tokens,
            efforts: effort_pairs(self.efforts@),
            default_effort: self.default_effort@,
        }
    }
}

/// The first advertised model with the id.
pub open spec fn advertised(models: Seq<DeepSeekCatalogModel>, id: Seq<char>) -> Option<
    DeepSeekCatalogModel,
>
    decreases models.len(),
{
    if models.len() == 0 {
        None
    } else if models[0].id@ == id {
        Some(models[0])
    } else {
        advertised(models.skip(1), id)
    }
}

/// The effort of a call that names none.
pub open spec fn default_effort_of(defaults: RequestDefaults) -> Seq<char> {
    if opt(defaults.thinking) == Some("disabled"@) {
        "off"@
    } else if opt(defaults.reasoning_effort) == Some("off"@) {
        "off"@
    } else if opt(defaults.reasoning_effort) == Some("max"@) {
        "max"@
    } else {
        "high"@
    }
}

/// Everything that is known of a model: an advertised model's own facts, the deployment's
/// defaults for the rest.
pub open spec fn resolved<R>(
    c: DeepSeekConnectionOptions<R>,
    provider: Seq<char>,
    id: Seq<char>,
) -> ResolvedView {
    let entry = advertised(c.models@, id);
    ResolvedView {
        info: match entry {
            Some(m) => info_of(provider, m),
            None => bare_info(provider, id),
        },
        context_window: match entry {
            Some(m) => match m.context_window {
                Some(n) => n,
                None => c.default_context_window,
            },
            None => c.default_context_window,
        },
        default_max_tokens: match entry {
            Some(m) => match m.max_tokens {
                Some(n) => n,
                None => c.max_tokens,
            },
            None => c.max_tokens,
        },
        efforts: effort_views(opt(c.defaults.thinking) == Some("disabled"@)),
        default_effort: default_effort_of(c.defaults),
    }
}

/// Everything that is known of a model.
pub fn resolve_model<R>(
    connection: &DeepSeekConnectionOptions<R>,
    provider: &str,
    model: &str,
) -> (r: LlmResolvedModelInfo)
    ensures
        r@ == resolved(*connection, provider@, model@),
{
    let ghost all = connection.models@;
    let mut found: Option<usize> = None;
    let mut i: usize = 0;
    assert(all.skip(0) =~= all);
    while i < connection.models.len() && found.is_none()
        invariant
            i <= all.len(),
            all == connection.models@,
            match found {
                Some(k) => k < all.len() && advertised(all, model@) == Some(all[k as int]),
                None => advertised(all, model@) == advertised(all.skip(i as int), model@),
            },
        decreases all.len() - i,
    {
        assert(all.skip(i as int)[0] == all[i as int]);
        assert(all.skip(i as int).skip(1) =~= all.skip(i + 1));
        if str_eq(connection.models[i].id.as_str(), model) {
            found = Some(i);
        }
        i = i + 1;
    }
    let thinking_disabled = opt_is(&connection.defaults.thinking, "disabled");
    let default_effort = if thinking_disabled || opt_is(
        &connection.defaults.reasoning_effort,
        "off",
    ) {
        "off"
    } else if opt_is(&connection.defaults.reasoning_effort, "max") {
        "max"
    } else {
        "high"
    };
    let (info, context_window, default_max_tokens) = match found {
        Some(k) => {
            let entry = &connection.models[k];
            (
                model_info(provider, entry),
                entry.context_window.unwrap_or(connection.default_context_window),
                entry.max_tokens.unwrap_or(connection.max_tokens),
            )
        },
        // A model that is not advertised still takes text alone: this route cannot carry
        // images, and the host must not accept any for it.
        None => (
            LlmModelInfo {
                provider: provider.to_owned(),
                id: model.to_owned(),
                name: model.to_owned(),
                description: None,
                text_only: true,
            },
            connection.default_context_window,
            connection.max_tokens,
        ),
    };
    LlmResolvedModelInfo {
        info,
        context_window,
        default_max_tokens,
        efforts: efforts(thinking_disabled),
        default_effort: default_effort.to_owned(),
    }
}

/// How long a provider asks to wait: a number of seconds in decimal, or milliseconds until a
/// date.
#[derive(Debug, PartialEq)]
pub enum RetryAfter {
    Seconds(String),
    Millis(i128),
}

/// The mathematical value of a [`RetryAfter`].
pub enum WaitView {
    Seconds(Seq<char>),
    Millis(int),
}

impl View for RetryAfter {
    type V = WaitView;

    open spec fn view(&self) -> WaitView {
        match self {
            RetryAfter::Seconds(s) => WaitView::Seconds(s@),
            RetryAfter::Millis(n) => WaitView::Millis(*n as int),
        }
    }
}

/// The mathematical value of an optional wait.
pub open spec fn wait_view(r: Option<RetryAfter>) -> Option<WaitView> {
    match r {
        Some(r) => Some(r@),
        None => None,
    }
}

/// The milliseconds since 1970 of an RFC 2822 date; none where the text is no such date.
pub uninterp spec fn rfc2822_ms(text: Seq<char>) -> Option<i64>;

/// `chrono::DateTime::parse_from_rfc2822`, taken to milliseconds since 1970 by
/// `timestamp_millis`. The result depends on the text alone; which texts are dates, and of
/// what moment, is left to chrono.
#[verifier::external_body]
fn parse_rfc2822_ms(text: &str) -> (r: Option<i64>)
    ensures
        r == rfc2822_ms(text@),
{
    chrono::DateTime::parse_from_rfc2822(text).ok().map(|date| date.timestamp_millis())
}

/// The wait until a date, where that is still to come.
pub open spec fn until(date_ms: Option<i64>, now_ms: i64) -> Option<WaitView> {
    match date_ms {
        Some(date) => if date > now_ms {
            Some(WaitView::Millis(date - now_ms))
        } else {
            None
        },
        None => None,
    }
}

/// The wait until a date, where that is still to come.
pub fn wait_until(date_ms: Option<i64>, now_ms: i64) -> (r: Option<RetryAfter>)
    ensures
        wait_view(r) == until(date_ms, now_ms),
{
    match date_ms {
        Some(date) => {
            let delay: i128 = date as i128 - now_ms as i128;
            if delay > 0 {
                Some(RetryAfter::Millis(delay))
            } else {
                None
            }
        },
        None => None,
    }
}

/// Some character is not the digit zero.
pub open spec fn not_all_zero(s: Seq<char>) -> bool {
    exists|i: int| 0 <= i < s.len() && #[trigger] s[i] != '0'
}

/// What a `retry-after` header asks for. A number counts as seconds, and zero asks for
/// nothing; anything else counts as a date.
pub open spec fn asked_wait(value: Option<Seq<char>>, now_ms: i64) -> Option<WaitView> {
    match value {
        Some(text) => if text.len() > 0 && all_digits(text) {
            if not_all_zero(text) {
                Some(WaitView::Seconds(text))
            } else {
                None
            }
        } else {
            until(rfc2822_ms(text), now_ms)
        },
        None => None,
    }
}

/// What a `retry-after` header asks for. Seconds are handed on as they were written: whether
/// their milliseconds are still a finite float is the caller's to see.
pub fn provider_retry_after_ms(value: Option<&str>, now_ms: i64) -> (r: Option<RetryAfter>)
    ensures
        wait_view(r) == asked_wait(opt_str(value), now_ms),
{
    let text = match value {
        Some(text) => text,
        None => {
            return None;
        },
    };
    let chars = chars_of(text);
    if chars.len() > 0 && only_digits(&chars) {
        let mut i: usize = 0;
        while i < chars.len()
            invariant
                i <= chars@.len(),
                chars@ == text@,
                value == Some(text),
                text@.len() > 0,
                all_digits(text@),
                forall|j: int| 0 <= j < i ==> #[trigger] text@[j] == '0',
            decreases chars@.len() - i,
        {
            if chars[i] != '0' {
                return Some(RetryAfter::Seconds(text.to_owned()));
            }
            i = i + 1;
        }
        return None;
    }
    wait_until(parse_rfc2822_ms(text), now_ms)
}

/// A response header: its text, or nothing where its bytes are not plain text.
pub type HeaderText = Option<String>;

/// The provider's id of a request. The second header counts only where the first is not there.
pub open spec fn sent_id(primary: Option<HeaderText>, secondary: Option<HeaderText>) -> Option<
    Seq<char>,
> {
    let header = if primary is Some {
        primary
    } else {
        secondary
    };
    match header {
        Some(Some(text)) => if text@.len() > 0 {
            Some(text@)
        } else {
            None
        },
        _ => None,
    }
}

/// The provider's id of a request: `x-request-id`, else `x-deepseek-request-id`, where that is
/// plain text and not empty.
pub fn request_id(primary: &Option<HeaderText>, secondary: &Option<HeaderText>) -> (r: Option<
    String,
>)
    ensures
        opt(r) == sent_id(*primary, *secondary),
{
    let header = match primary {
        Some(header) => Some(header),
        None => match secondary {
            Some(header) => Some(header),
            None => None,
        },
    };
    match header {
        Some(Some(text)) => if text.as_str().is_empty() {
            None
        } else {
            Some(text.clone())
        },
        _ => None,
    }
}

/// The parts of a provider's error that say what went wrong.
pub open spec fn detail_parts(e: WireErrorDetail) -> Seq<Seq<char>> {
    let a = if e.code is Some {
        seq![e.code->0@]
    } else {
        Seq::empty()
    };
    let b = if e.error_type is Some {
        seq![e.error_type->0@]
    } else {
        Seq::empty()
    };
    let c = if e.message is Some {
        seq![e.message->0@]
    } else {
        Seq::empty()
    };
    a + b + c
}

/// What a provider's error says: its code, type, and message, as far as they are there, with
/// spaces between.
pub fn error_detail(error: Option<&WireErrorDetail>) -> (r: String)
    ensures
        r@ == match error {
            Some(e) => joined(detail_parts(*e), " "@),
            None => Seq::empty(),
        },
{
    match error {
        Some(error) => {
            let mut parts: Vec<String> = Vec::new();
            if let Some(code) = &error.code {
                parts.push(code.clone());
            }
            if let Some(error_type) = &error.error_type {
                parts.push(error_type.clone());
            }
            if let Some(message) = &error.message {
                parts.push(message.clone());
            }
            assert(views(parts@) =~= detail_parts(*error));
            join(&parts, " ")
        },
        None => String::new(),
    }
}

/// The stable code of an HTTP status. `quota_code` and `window_code` are the codes that the
/// error's detail was classified under, where it speaks of an exceeded quota or context
/// window.
pub open spec fn status_code(
    status: u16,
    quota_code: Option<Seq<char>>,
    window_code: Option<Seq<char>>,
) -> Seq<char> {
    if status == 401 || status == 403 {
        "AUTH"@
    } else if quota_code is Some {
        quota_code->0
    } else if status == 429 {
        "RATE_LIMIT"@
    } else if status == 400 {
        if window_code is Some {
            window_code->0
        } else {
            "INVALID_REQUEST"@
        }
    } else if status >= 500 {
        "SERVER"@
    } else {
        "HTTP_"@ + decimal(status as int)
    }
}

/// The characters of an optional text.
pub open spec fn opt_str(s: Option<&str>) -> Option<Seq<char>> {
    match s {
        Some(s) => Some(s@),
        None => None,
    }
}

/// The stable code of an HTTP status; see [`status_code`].
pub fn http_error_code(status: u16, quota_code: Option<&str>, window_code: Option<&str>) -> (r:
    String)
    ensures
        r@ == status_code(status, opt_str(quota_code), opt_str(window_code)),
{
    if status == 401 || status == 403 {
        return "AUTH".to_owned();
    }
    if let Some(code) = quota_code {
        return code.to_owned();
    }
    if status == 429 {
        return "RATE_LIMIT".to_owned();
    }
    if status == 400 {
        return match window_code {
            Some(code) => code.to_owned(),
            None => "INVALID_REQUEST".to_owned(),
        };
    }
    if status >= 500 {
        return "SERVER".to_owned();
    }
    let mut code = "HTTP_".to_owned();
    code.append(to_decimal(status as u64).as_str());
    code
}

/// The error of an answer outside 2xx: the provider's own message, where it sent one.
pub open spec fn http_failure_view(
    status: u16,
    error: Option<WireErrorDetail>,
    quota_code: Option<Seq<char>>,
    window_code: Option<Seq<char>>,
) -> ErrorView {
    let sent = match error {
        Some(e) => opt(e.message),
        None => None,
    };
    ErrorView {
        message: match sent {
            Some(m) => m,
            None => "DeepSeek API error (HTTP "@ + decimal(status as int) + ")"@,
        },
        code: status_code(status, quota_code, window_code),
    }
}

/// The error of an answer outside 2xx.
pub fn http_failure(
    status: u16,
    error: &Option<WireErrorDetail>,
    quota_code: Option<&str>,
    window_code: Option<&str>,
) -> (r: LlmError)
    ensures
        r@ == http_failure_view(status, *error, opt_str(quota_code), opt_str(window_code)),
{
    let sent = match error {
        Some(error) => clone_opt(&error.message),
        None => None,
    };
    let message = match sent {
        Some(message) => message,
        None => {
            let mut message = "DeepSeek API error (HTTP ".to_owned();
            message.append(to_decimal(status as u64).as_str());
            message.append(")");
            message
        },
    };
    LlmError { message, code: http_error_code(status, quota_code, window_code) }
}

/// Whether a status is a success.
pub fn is_success(status: u16) -> (r: bool)
    ensures
        r == (200 <= status < 300),
{
    status >= 200 && status < 300
}

/// The 0G Router ends a finished stream by closing the body, without the sentinel.
pub open spec fn ends_by_closing(base_url: Seq<char>, api_key_env: Seq<char>) -> bool {
    api_key_env == "OG_API_KEY"@ || has_part(base_url, "0g.ai"@)
}

/// Whether the connection goes to the 0G Router.
pub fn og_endpoint<R>(connection: &DeepSeekConnectionOptions<R>) -> (r: bool)
    ensures
        r == ends_by_closing(connection.base_url@, connection.api_key_env@),
{
    str_eq(connection.api_key_env.as_str(), "OG_API_KEY") || str_contains(
        connection.base_url.as_str(),
        "0g.ai",
    )
}

/// Whether a response header of a routed call is worth a log line.
pub fn is_og_header(name: &str) -> (r: bool)
    ensures
        r == (has_part(name@, "0g"@) || has_prefix(name@, "zg-"@)),
{
    str_contains(name, "0g") || str_starts_with(name, "zg-")
}

/// Where a call goes: the endpoint, the credential that is sent to it, and the headers that
/// belong to both.
pub struct TargetView {
    pub base_url: Seq<char>,
    pub api_key_env: Seq<char>,
    pub headers: Seq<(Seq<char>, Seq<char>)>,
}

/// Where the calls of a connection go.
pub open spec fn target_of<R>(c: DeepSeekConnectionOptions<R>) -> TargetView {
    TargetView {
        base_url: c.base_url@,
        api_key_env: c.api_key_env@,
        headers: header_views(c.extra_headers@),
    }
}

/// Where a call goes that may be routed.
pub open spec fn routed_target(target: TargetView, overlay: Option<OverlayView>) -> TargetView {
    match overlay {
        Some(o) => TargetView {
            base_url: o.base_url,
            api_key_env: o.api_key_env,
            headers: o.headers,
        },
        None => target,
    }
}

/// The mathematical value of an optional overlay.
pub open spec fn overlay_view(overlay: Option<RequestOverlay>) -> Option<OverlayView> {
    match overlay {
        Some(o) => Some(o@),
        None => None,
    }
}

/// Puts a session's overlay on a connection snapshot: endpoint, credential, and headers change
/// together; everything else stays.
pub fn apply_overlay<R>(
    connection: DeepSeekConnectionOptions<R>,
    overlay: &Option<RequestOverlay>,
) -> (r: DeepSeekConnectionOptions<R>)
    ensures
        target_of(r) == routed_target(target_of(connection), overlay_view(*overlay)),
        r.defaults == connection.defaults,
        r.max_tokens == connection.max_tokens,
        r.default_context_window == connection.default_context_window,
        r.models == connection.models,
        r.stream_idle_timeout_ms == connection.stream_idle_timeout_ms,
        r.retry_policy == connection.retry_policy,
{
    match overlay {
        Some(overlay) => {
            let overlay = clone_overlay(overlay);
            DeepSeekConnectionOptions {
                base_url: overlay.base_url,
                api_key_env: overlay.api_key_env,
                extra_headers: overlay.headers,
                ..connection
            }
        },
        None => connection,
    }
}

/// One HTTP call: `POST url` with the headers in order and the body as JSON.
pub struct HttpCall {
    pub url: String,
    pub headers: Vec<(String, String)>,
    pub body: WireRequest,
}

/// The headers of a call, in order: the credential and the formats, who asks, the host's
/// attribution, the session, the mark of a compaction, and the connection's own.
pub open spec fn call_headers(
    api_key: Seq<char>,
    user_id: Seq<char>,
    attribution: Seq<(Seq<char>, Seq<char>)>,
    session_id: Option<Seq<char>>,
    purpose: Option<CallPurpose>,
    extra: Seq<(Seq<char>, Seq<char>)>,
) -> Seq<(Seq<char>, Seq<char>)> {
    let session = match session_id {
        Some(id) => seq![("x-deepseek-harness-session-id"@, id)],
        None => Seq::empty(),
    };
    let compact = if purpose == Some(CallPurpose::Compaction) {
        seq![("x-deepseek-harness-compact"@, "1"@)]
    } else {
        Seq::empty()
    };
    seq![
        ("authorization"@, "Bearer "@ + api_key),
        ("content-type"@, "application/json"@),
        ("accept"@, "text/event-stream"@),
        ("x-deepseek-harness-user-id"@, user_id),
    ] + attribution + session + compact + extra
}

/// The request without the attestation mark.
pub open spec fn unmarked(body: WireRequest) -> WireRequest {
    WireRequest { verify_tee: None, ..body }
}

/// Builds the HTTP call of one request on a connection snapshot that has its overlay applied.
/// `api_key` is what came of the credential that the connection names; without it there is no
/// call. A routed call asks for a TEE attestation where its overlay says so.
pub fn build_call<R>(
    connection: &DeepSeekConnectionOptions<R>,
    overlay: &Option<RequestOverlay>,
    options: &GenerateOptions,
    api_key: Result<String, LlmError>,
    user_id: &str,
    attribution: &Vec<(String, String)>,
) -> (r: Result<HttpCall, LlmError>)
    ensures
        match api_key {
            Err(refused) => r matches Err(e) && e@ == refused@,
            Ok(key) => match r {
                Ok(call) => {
                    &&& text_only(message_views(options.messages@))
                    &&& request_thinking(*options, connection.defaults) is Ok
                    &&& call.url@ == connection.base_url@ + "/chat/completions"@
                    &&& header_views(call.headers@) == call_headers(
                        key@,
                        user_id@,
                        header_views(attribution@),
                        opt(options.session_id),
                        options.purpose,
                        header_views(connection.extra_headers@),
                    )
                    &&& is_request(unmarked(call.body), *options, connection.defaults)
                    &&& call.body.verify_tee == if overlay is Some && overlay->0.verify_tee {
                        Some(true)
                    } else {
                        None
                    }
                },
                Err(e) => if !text_only(message_views(options.messages@)) {
                    e@ == image_refused()
                } else {
                    request_thinking(*options, connection.defaults) == Err::<
                        ThinkingView,
                        ErrorView,
                    >(e@)
                },
            },
        },
{
    let api_key = match api_key {
        Ok(api_key) => api_key,
        Err(error) => {
            return Err(error);
        },
    };
    let mut body = match serialize_request(options, &connection.defaults) {
        Ok(body) => body,
        Err(error) => {
            return Err(error);
        },
    };
    let ghost plain = body;
    if let Some(overlay) = overlay {
        if overlay.verify_tee {
            body.verify_tee = Some(true);
        }
    }
    assert(unmarked(body) == plain);
    let mut url = connection.base_url.clone();
    url.append("/chat/completions");
    let mut bearer = "Bearer ".to_owned();
    bearer.append(api_key.as_str());
    let mut headers: Vec<(String, String)> = Vec::new();
    assert(header_views(headers@) =~= Seq::<(Seq<char>, Seq<char>)>::empty());
    push_header(&mut headers, "authorization", bearer);
    push_header(&mut headers, "content-type", "application/json".to_owned());
    push_header(&mut headers, "accept", "text/event-stream".to_owned());
    push_header(&mut headers, "x-deepseek-harness-user-id", user_id.to_owned());
    push_headers(&mut headers, attribution);
    if let Some(session_id) = &options.session_id {
        push_header(&mut headers, "x-deepseek-harness-session-id", session_id.clone());
    }
    if let Some(CallPurpose::Compaction) = options.purpose {
        push_header(&mut headers, "x-deepseek-harness-compact", "1".to_owned());
    }
    push_headers(&mut headers, &connection.extra_headers);
    assert(header_views(headers@) =~= call_headers(
        api_key@,
        user_id@,
        header_views(attribution@),
        opt(options.session_id),
        options.purpose,
        header_views(connection.extra_headers@),
    ));
    Ok(HttpCall { url, headers, body })
}

/// An endpoint and the credential that is sent to it never come from different places: a call
/// goes wholly by its connection or wholly by its overlay.
pub proof fn law_endpoint_and_credential_share_a_source(
    target: TargetView,
    overlay: Option<OverlayView>,
)
    ensures
        ({
            let used = routed_target(target, overlay);
            ||| used == target
            ||| overlay matches Some(o) && used.base_url == o.base_url && used.api_key_env
                == o.api_key_env && used.headers == o.headers
        }),
{
}

/// Every model takes text alone, whether it is advertised or not, so no host accepts an image
/// that the route cannot carry.
pub proof fn law_every_model_takes_text_alone<R>(
    c: DeepSeekConnectionOptions<R>,
    provider: Seq<char>,
    id: Seq<char>,
)
    ensures
        resolved(c, provider, id).info.text_only,
{
}

/// A refused credential is reported as such, whatever the error's detail says.
pub proof fn law_auth_outranks_detail(quota: Option<Seq<char>>, window: Option<Seq<char>>)
    ensures
        status_code(401, quota, window) == "AUTH"@,
        status_code(403, quota, window) == "AUTH"@,
{
}

/// An exceeded quota outranks the rate limit that it may be reported with.
pub proof fn law_quota_outranks_rate_limit(status: u16, code: Seq<char>, window: Option<Seq<char>>)
    requires
        status != 401,
        status != 403,
    ensures
        status_code(status, Some(code), window) == code,
        status_code(429, None, window) == "RATE_LIMIT"@,
{
}

/// The default effort of a model is one of the efforts that it offers.
pub proof fn law_default_effort_is_offered<R>(
    c: DeepSeekConnectionOptions<R>,
    provider: Seq<char>,
    id: Seq<char>,
)
    ensures
        ({
            let r = resolved(c, provider, id);
            exists|i: int|
                0 <= i < r.efforts.len() && (#[trigger] r.efforts[i]).0 == r.default_effort
        }),
{
    let r = resolved(c, provider, id);
    if r.default_effort == "off"@ {
        assert(r.efforts[0].0 == "off"@);
    } else if r.default_effort == "high"@ {
        assert(r.efforts[1].0 == "high"@);
    } else {
        assert(r.efforts[2].0 == "max"@);
    }
}

/// The code of a status that is neither a refused credential nor an exceeded quota: 429 is the
/// rate limit, 400 an exceeded window or an invalid request, 500 and above the server's, and
/// every other status is named by its number.
pub proof fn law_statuses_have_their_code(status: u16, window: Option<Seq<char>>)
    requires
        status != 401,
        status != 403,
    ensures
        ({
            let code = status_code(status, None, window);
            &&& status == 429 ==> code == "RATE_LIMIT"@
            &&& status == 400 && window is Some ==> code == window->0
            &&& status == 400 && window is None ==> code == "INVALID_REQUEST"@
            &&& status >= 500 ==> code == "SERVER"@
            &&& status < 500 && status != 429 && status != 400 ==> code == "HTTP_"@ + decimal(
                status as int,
            )
        }),
{
}

/// The error of a failed answer has the provider's own message, where it sent one, and names the
/// status otherwise; its code is the status's.
pub proof fn law_failures_quote_the_provider(
    status: u16,
    error: Option<WireErrorDetail>,
    quota: Option<Seq<char>>,
    window: Option<Seq<char>>,
)
    ensures
        ({
            let failure = http_failure_view(status, error, quota, window);
            let sent = error is Some && error->0.message is Some;
            &&& sent ==> failure.message == error->0.message->0@
            &&& !sent ==> failure.message == "DeepSeek API error (HTTP "@ + decimal(
                status as int,
            ) + ")"@
            &&& failure.code == status_code(status, quota, window)
        }),
{
}

/// What a provider's error says is its code, its type, and its message, those that are there,
/// in this order.
pub proof fn law_details_say_what_is_there(e: WireErrorDetail)
    ensures
        ({
            let parts = detail_parts(e);
            let k = if e.code is Some { 1int } else { 0 };
            let n = k + if e.error_type is Some { 1int } else { 0 };
            &&& e.code is Some ==> parts[0] == e.code->0@
            &&& e.error_type is Some ==> parts[k] == e.error_type->0@
            &&& e.message is Some ==> parts[n] == e.message->0@
            &&& parts.len() == n + if e.message is Some { 1int } else { 0 }
        }),
{
}

/// How long to wait: a number other than zero is that many seconds, a date to come is the time
/// until it, and zero, a date that is past, or anything else is no wait.
pub proof fn law_waits_are_what_is_asked(text: Seq<char>, now_ms: i64)
    ensures
        ({
            let wait = asked_wait(Some(text), now_ms);
            let number = text.len() > 0 && all_digits(text);
            let zero = forall|i: int| 0 <= i < text.len() ==> #[trigger] text[i] == '0';
            &&& number && !zero ==> wait == Some(WaitView::Seconds(text))
            &&& number && zero ==> wait is None
            &&& !number ==> match rfc2822_ms(text) {
                Some(date) => if date > now_ms {
                    wait == Some(WaitView::Millis(date - now_ms))
                } else {
                    wait is None
                },
                None => wait is None,
            }
            &&& asked_wait(None, now_ms) is None
        }),
{
}

/// The id of a request is what the first header says, or the second where the first is not
/// there; a header that is empty or not plain text says nothing.
pub proof fn law_the_first_header_has_the_id(primary: HeaderText, secondary: Option<HeaderText>)
    ensures
        ({
            let said = match primary {
                Some(text) => if text@.len() > 0 {
                    Some(text@)
                } else {
                    None
                },
                None => None,
            };
            &&& sent_id(Some(primary), secondary) == said
            &&& sent_id(None, Some(primary)) == said
            &&& sent_id(None, None) is None
        }),
{
}

/// A connection goes to the router where its credential is the router's or its address is under
/// the router's domain.
pub proof fn law_the_router_is_known(base_url: Seq<char>, api_key_env: Seq<char>)
    ensures
        ends_by_closing(base_url, "OG_API_KEY"@),
        has_part(base_url, "0g.ai"@) ==> ends_by_closing(base_url, api_key_env),
        !has_part(base_url, "0g.ai"@) && api_key_env != "OG_API_KEY"@ ==> !ends_by_closing(
            base_url,
            api_key_env,
        ),
{
}

/// A routed call goes by its overlay, and a call that is not routed by its connection.
pub proof fn law_an_overlay_replaces_the_target(target: TargetView, overlay: OverlayView)
    ensures
        routed_target(target, None) == target,
        routed_target(target, Some(overlay)).base_url == overlay.base_url,
        routed_target(target, Some(overlay)).api_key_env == overlay.api_key_env,
        routed_target(target, Some(overlay)).headers == overlay.headers,
{
}

/// A call carries its credential and its formats first, then the host's attribution, then its
/// session and the mark of a compaction, where they are, and last the connection's own headers.
/// None is left out and none is added.
pub proof fn law_calls_carry_their_headers(
    api_key: Seq<char>,
    user_id: Seq<char>,
    attribution: Seq<(Seq<char>, Seq<char>)>,
    session_id: Option<Seq<char>>,
    purpose: Option<CallPurpose>,
    extra: Seq<(Seq<char>, Seq<char>)>,
)
    ensures
        ({
            let headers = call_headers(
                api_key,
                user_id,
                attribution,
                session_id,
                purpose,
                extra,
            );
            let compact = purpose == Some(CallPurpose::Compaction);
            let n = 4 + attribution.len();
            let s = if session_id is Some { 1int } else { 0 };
            let c = if compact { 1int } else { 0 };
            &&& headers.len() == n + s + c + extra.len()
            &&& headers[0] == ("authorization"@, "Bearer "@ + api_key)
            &&& headers[1] == ("content-type"@, "application/json"@)
            &&& headers[2] == ("accept"@, "text/event-stream"@)
            &&& headers[3] == ("x-deepseek-harness-user-id"@, user_id)
            &&& forall|i: int|
                0 <= i < attribution.len() ==> headers[4 + i] == #[trigger] attribution[i]
            &&& session_id matches Some(id) ==> headers[n as int] == (
                "x-deepseek-harness-session-id"@,
                id,
            )
            &&& compact ==> headers[n + s] == ("x-deepseek-harness-compact"@, "1"@)
            &&& forall|i: int|
                0 <= i < extra.len() ==> headers[n + s + c + i] == #[trigger] extra[i]
        }),
{
}

proof fn lemma_first_advertised(models: Seq<DeepSeekCatalogModel>, id: Seq<char>, k: int)
    requires
        0 <= k < models.len(),
        models[k].id@ == id,
        forall|i: int| 0 <= i < k ==> (#[trigger] models[i]).id@ != id,
    ensures
        advertised(models, id) == Some(models[k]),
    decreases models.len(),
{
    if k > 0 {
        let tail = models.skip(1);
        assert(models[0].id@ != id);
        assert forall|i: int| 0 <= i < k - 1 implies (#[trigger] tail[i]).id@ != id by {
            assert(tail[i] == models[i + 1]);
        }
        assert(tail[k - 1] == models[k]);
        lemma_first_advertised(tail, id, k - 1);
    }
}

proof fn lemma_not_advertised(models: Seq<DeepSeekCatalogModel>, id: Seq<char>)
    requires
        forall|i: int| 0 <= i < models.len() ==> (#[trigger] models[i]).id@ != id,
    ensures
        advertised(models, id) is None,
    decreases models.len(),
{
    if models.len() > 0 {
        let tail = models.skip(1);
        assert(models[0].id@ != id);
        assert forall|i: int| 0 <= i < tail.len() implies (#[trigger] tail[i]).id@ != id by {
            assert(tail[i] == models[i + 1]);
        }
        lemma_not_advertised(tail, id);
    }
}

/// An advertised model is known by the first entry of its id: its own name, description, and
/// limits count over the deployment's.
pub proof fn law_an_advertised_model_is_its_entry<R>(
    c: DeepSeekConnectionOptions<R>,
    provider: Seq<char>,
    id: Seq<char>,
    k: int,
)
    requires
        0 <= k < c.models@.len(),
        c.models@[k].id@ == id,
        forall|i: int| 0 <= i < k ==> (#[trigger] c.models@[i]).id@ != id,
    ensures
        ({
            let m = c.models@[k];
            let known = resolved(c, provider, id);
            &&& known.info.provider == provider
            &&& known.info.id == id
            &&& known.info.name == if m.name is Some { m.name->0@ } else { id }
            &&& known.info.description == opt(m.description)
            &&& known.context_window == if m.context_window is Some {
                m.context_window->0
            } else {
                c.default_context_window
            }
            &&& known.default_max_tokens == if m.max_tokens is Some {
                m.max_tokens->0
            } else {
                c.max_tokens
            }
            &&& info_of(provider, m) == known.info
        }),
{
    lemma_first_advertised(c.models@, id, k);
}

/// A model that is not advertised is known by its id and the deployment's limits.
pub proof fn law_any_model_can_be_resolved<R>(
    c: DeepSeekConnectionOptions<R>,
    provider: Seq<char>,
    id: Seq<char>,
)
    requires
        forall|i: int| 0 <= i < c.models@.len() ==> (#[trigger] c.models@[i]).id@ != id,
    ensures
        ({
            let known = resolved(c, provider, id);
            &&& known.info.provider == provider
            &&& known.info.id == id && known.info.name == id
            &&& known.info.description is None
            &&& known.context_window == c.default_context_window
            &&& known.default_max_tokens == c.max_tokens
        }),
{
    lemma_not_advertised(c.models@, id);
}

/// A deployment with thinking switched off offers `off` alone; any other offers `off`, `high`,
/// and `max`. The default is the deployment's own, or `high`.
pub proof fn law_efforts_are_what_the_deployment_allows<R>(
    c: DeepSeekConnectionOptions<R>,
    provider: Seq<char>,
    id: Seq<char>,
)
    ensures
        ({
            let known = resolved(c, provider, id);
            let disabled = opt(c.defaults.thinking) == Some("disabled"@);
            let effort = opt(c.defaults.reasoning_effort);
            &&& known.efforts[0] == ("off"@, "Off"@)
            &&& disabled ==> known.efforts.len() == 1 && known.default_effort == "off"@
            &&& !disabled ==> {
                &&& known.efforts.len() == 3
                &&& known.efforts[1] == ("high"@, "High"@)
                &&& known.efforts[2] == ("max"@, "Max"@)
                &&& effort == Some("off"@) || effort == Some("max"@) ==> known.default_effort
                    == effort->0
                &&& effort != Some("off"@) && effort != Some("max"@) ==> known.default_effort
                    == "high"@
            }
        }),
{
    reveal_strlit("off");
    reveal_strlit("max");
    assert("off"@[0] == 'o' && "max"@[0] == 'm');
}

/// Without its attestation mark a request is as it was.
pub proof fn law_the_mark_is_all_that_goes(body: WireRequest)
    ensures
        ({
            let plain = unmarked(body);
            &&& plain.verify_tee is None
            &&& plain.model == body.model && plain.messages == body.messages
            &&& plain.stream == body.stream && plain.stream_options == body.stream_options
            &&& plain.thinking == body.thinking && plain.reasoning_effort == body.reasoning_effort
            &&& plain.tools == body.tools && plain.stop == body.stop
            &&& plain.temperature_bits == body.temperature_bits
            &&& plain.max_tokens == body.max_tokens
        }),
{
}

/// The calls of a connection go to its endpoint, with its credential and its headers, in order.
pub proof fn law_calls_go_by_their_connection<R>(c: DeepSeekConnectionOptions<R>, i: int)
    requires
        0 <= i < c.extra_headers@.len(),
    ensures
        target_of(c).base_url == c.base_url@,
        target_of(c).api_key_env == c.api_key_env@,
        target_of(c).headers.len() == c.extra_headers@.len(),
        target_of(c).headers[i] == (c.extra_headers@[i].0@, c.extra_headers@[i].1@),
{
}

/// What a deployment does not configure: five minutes without a byte end a stream, a million
/// tokens are the window, and 256,000 the output.
pub proof fn law_deployments_have_their_defaults()
    ensures
        DEFAULT_STREAM_IDLE_TIMEOUT_MS == 5 * 60 * 1_000,
        DEFAULT_CONTEXT_WINDOW == 1_000_000,
        DEFAULT_MAX_TOKENS == 256_000,
{
}

}
