//! The in-process loops as harnesses: what each loop offers, where it connects, and how the
//! events of its session log appear to the host.

use crate::adapter::{
    header_views, DeepSeekConnectionOptions, OverlayView, RequestOverlay, DEFAULT_CONTEXT_WINDOW,
    DEFAULT_MAX_TOKENS, DEFAULT_STREAM_IDLE_TIMEOUT_MS,
};
use crate::chat::{
    contents, flat_text, flatten_text, ChunkView, ContentBlock, ContentView, ErrorView, LlmError,
    LlmFailure, StreamChunk, TokenUsage,
};
use crate::json::{json_clone, json_document, parse_json, Json, JsonView};
use crate::og::{
    env_trust, router_address, to_harness_model, trust_from_env, trust_header, trust_name, OgModel,
};
use crate::proto::{
    agent_views, clone_event, AgentEvent, AgentView, CardView, DecisionActivity, DecisionEvent,
    DoneStatus, HarnessId, Model, OfferView, ReasoningLevel, ReceiptView, RunRequest, SteeringMode,
    ToolCall,
};
use crate::serialize::RequestDefaults;
use crate::table::Table;
use crate::text::{
    head, law_the_head_is_the_first_characters, opt, or_empty, str_eq, take_chars, trim_end_char,
    without_trailing,
};
use vstd::prelude::*;
use vstd::string::*;
use vstd::utf8::encode_utf8;

verus! {

/// Which loop an actor serves. Both speak the same protocol; each has its own endpoint,
/// credential, and catalog.
#[derive(Debug, Clone, Copy, PartialEq, Eq, Structural)]
pub enum LoopKind {
    Deepseek,
    Og,
}

/// The handle of one loop. `P` is the path of the directory that holds the local decision
/// preference.
pub struct DshHarness<P> {
    decision_data_dir: Option<P>,
    kind: LoopKind,
}

/// The models of the direct loop.
pub open spec fn deepseek_offers() -> Seq<OfferView> {
    seq![
        OfferView {
            id: "deepseek-chat"@,
            label: "DeepSeek Chat"@,
            description: None,
            reasoning_levels: seq![ReasoningLevel::Medium],
        },
        OfferView {
            id: "deepseek-reasoner"@,
            label: "DeepSeek Reasoner"@,
            description: None,
            reasoning_levels: seq![ReasoningLevel::Medium],
        },
    ]
}

/// The mathematical values of a list of models.
pub open spec fn offer_views(s: Seq<Model>) -> Seq<OfferView> {
    s.map_values(|m: Model| m@)
}

/// The models of the direct loop.
pub fn deepseek_models() -> (r: Vec<Model>)
    ensures
        offer_views(r@) == deepseek_offers(),
{
    let r = vec![
        Model {
            id: "deepseek-chat".to_owned(),
            label: "DeepSeek Chat".to_owned(),
            description: None,
            reasoning_levels: vec![ReasoningLevel::Medium],
        },
        Model {
            id: "deepseek-reasoner".to_owned(),
            label: "DeepSeek Reasoner".to_owned(),
            description: None,
            reasoning_levels: vec![ReasoningLevel::Medium],
        },
    ];
    assert(r@[0].reasoning_levels@ =~= seq![ReasoningLevel::Medium]);
    assert(r@[1].reasoning_levels@ =~= seq![ReasoningLevel::Medium]);
    assert(offer_views(r@) =~= deepseek_offers());
    r
}

/// The harness that a loop is.
pub open spec fn harness_of_kind(kind: LoopKind) -> HarnessId {
    match kind {
        LoopKind::Deepseek => HarnessId::Dsh,
        LoopKind::Og => HarnessId::Og,
    }
}

impl<P> DshHarness<P> {
    /// The loop that the handle serves.
    pub closed spec fn kind_spec(self) -> LoopKind {
        self.kind
    }

    /// The preference directory.
    pub closed spec fn dir_spec(self) -> Option<P> {
        self.decision_data_dir
    }

    /// The direct loop.
    pub fn new() -> (r: Self)
        ensures
            r.kind_spec() == LoopKind::Deepseek,
            r.dir_spec() is None,
    {
        Self::with_kind(LoopKind::Deepseek, None)
    }

    /// The direct loop with a preference directory.
    pub fn with_decision_data_dir(path: P) -> (r: Self)
        ensures
            r.kind_spec() == LoopKind::Deepseek,
            r.dir_spec() == Some(path),
    {
        Self::with_kind(LoopKind::Deepseek, Some(path))
    }

    /// The routed loop. The direct loop stays on its own endpoint beside it.
    pub fn og() -> (r: Self)
        ensures
            r.kind_spec() == LoopKind::Og,
            r.dir_spec() is None,
    {
        Self::with_kind(LoopKind::Og, None)
    }

    /// The routed loop with a preference directory.
    pub fn og_with_decision_data_dir(path: P) -> (r: Self)
        ensures
            r.kind_spec() == LoopKind::Og,
            r.dir_spec() == Some(path),
    {
        Self::with_kind(LoopKind::Og, Some(path))
    }

    fn with_kind(kind: LoopKind, decision_data_dir: Option<P>) -> (r: Self)
        ensures
            r.kind_spec() == kind,
            r.dir_spec() == decision_data_dir,
    {
        DshHarness { decision_data_dir, kind }
    }

    /// The loop that the handle serves.
    pub fn kind(&self) -> (r: LoopKind)
        ensures
            r == self.kind_spec(),
    {
        self.kind
    }

    /// The preference directory.
    pub fn decision_data_dir(&self) -> (r: Option<&P>)
        ensures
            match self.dir_spec() {
                Some(path) => r == Some(&path),
                None => r is None,
            },
    {
        match &self.decision_data_dir {
            Some(path) => Some(path),
            None => None,
        }
    }

    pub fn id(&self) -> (r: HarnessId)
        ensures
            r == harness_of_kind(self.kind_spec()),
    {
        match self.kind {
            LoopKind::Deepseek => HarnessId::Dsh,
            LoopKind::Og => HarnessId::Og,
        }
    }

    pub fn display_name(&self) -> (r: &'static str)
        ensures
            r@ == match self.kind_spec() {
                LoopKind::Deepseek => "DeepSeek Harness"@,
                LoopKind::Og => "0G Router"@,
            },
    {
        match self.kind {
            LoopKind::Deepseek => "DeepSeek Harness",
            LoopKind::Og => "0G Router",
        }
    }

    pub fn supports_steering(&self) -> (r: bool)
        ensures
            r,
    {
        true
    }

    pub fn steering_mode(&self) -> (r: SteeringMode)
        ensures
            r == SteeringMode::StepBoundary,
    {
        SteeringMode::StepBoundary
    }

    pub fn reasoning_levels(&self) -> (r: Vec<ReasoningLevel>)
        ensures
            r@ == seq![ReasoningLevel::Medium],
    {
        vec![ReasoningLevel::Medium]
    }

    /// A loop is selectable only where its own credential is there.
    pub fn installed(&self, deepseek_credential: bool, og_credential: bool) -> (r: bool)
        ensures
            r == match self.kind_spec() {
                LoopKind::Deepseek => deepseek_credential,
                LoopKind::Og => og_credential,
            },
    {
        match self.kind {
            LoopKind::Deepseek => deepseek_credential,
            LoopKind::Og => og_credential,
        }
    }

    /// The models that the loop offers; those of the routed loop are its catalog's.
    pub fn models(&self, catalog: &Vec<OgModel>) -> (r: Vec<Model>)
        ensures
            match self.kind_spec() {
                LoopKind::Og => {
                    &&& r@.len() == catalog@.len()
                    &&& forall|i: int|
                        0 <= i < r@.len() ==> (#[trigger] r@[i])@ == crate::og::offer(
                            catalog@[i]@,
                        )
                },
                LoopKind::Deepseek => offer_views(r@) == deepseek_offers(),
            },
    {
        if let LoopKind::Deepseek = self.kind {
            return deepseek_models();
        }
        let mut out: Vec<Model> = Vec::new();
        let mut i: usize = 0;
        while i < catalog.len()
            invariant
                i <= catalog@.len(),
                out@.len() == i,
                forall|k: int|
                    0 <= k < i ==> (#[trigger] out@[k])@ == crate::og::offer(catalog@[k]@),
            decreases catalog@.len() - i,
        {
            out.push(to_harness_model(&catalog[i]));
            i = i + 1;
        }
        out
    }

    /// The name of the thread that runs the loop.
    pub fn thread_name(&self) -> (r: &'static str)
        ensures
            r@ == match self.kind_spec() {
                LoopKind::Og => "og-router"@,
                LoopKind::Deepseek => "dsh-harness"@,
            },
    {
        match self.kind {
            LoopKind::Og => "og-router",
            LoopKind::Deepseek => "dsh-harness",
        }
    }
}

impl<P> Default for DshHarness<P> {
    fn default() -> (r: Self)
        ensures
            r.kind_spec() == LoopKind::Deepseek,
            r.dir_spec() is None,
    {
        Self::new()
    }
}

/// The name of a loop's runtime in messages.
pub open spec fn runtime_of(kind: LoopKind) -> Seq<char> {
    match kind {
        LoopKind::Og => "0G router"@,
        LoopKind::Deepseek => "dsh"@,
    }
}

/// The name of a loop's runtime in messages.
pub fn runtime_name(kind: LoopKind) -> (r: &'static str)
    ensures
        r@ == runtime_of(kind),
{
    match kind {
        LoopKind::Og => "0G router",
        LoopKind::Deepseek => "dsh",
    }
}

/// The system prompt of a loop: its persona, and whether the harness introduces itself.
pub fn prompt_config(kind: LoopKind) -> (r: (String, bool))
    ensures
        r.0@ == match kind {
            LoopKind::Og =>
                "You are an AI agent. The 0G Router chooses the inference provider. Answer the user's task directly and concisely."@,
            LoopKind::Deepseek => "Answer the user's task directly and concisely."@,
        },
        r.1 == (kind == LoopKind::Deepseek),
{
    match kind {
        LoopKind::Og => (
            "You are an AI agent. The 0G Router chooses the inference provider. Answer the user's task directly and concisely.".to_owned(),
            false,
        ),
        LoopKind::Deepseek => (
            "Answer the user's task directly and concisely.".to_owned(),
            true,
        ),
    }
}

/// The direct endpoint: what the environment names, without trailing slashes, or the public
/// one.
pub open spec fn direct_address(env: Option<Seq<char>>) -> Seq<char> {
    match env {
        Some(url) => without_trailing(url, '/'),
        None => "https://api.deepseek.com"@,
    }
}

/// The direct endpoint.
pub fn direct_url(env: &Option<String>) -> (r: String)
    ensures
        r@ == direct_address(opt(*env)),
{
    match env {
        Some(url) => trim_end_char(url.as_str(), '/'),
        None => "https://api.deepseek.com".to_owned(),
    }
}

/// What the environment says of the endpoints.
pub struct Endpoints {
    pub deepseek_base_url: Option<String>,
    pub og_base_url: Option<String>,
    pub og_trust_mode: Option<String>,
}

/// The connection of a loop: endpoint, credential, and headers belong together.
pub fn connection_options<R>(kind: LoopKind, env: &Endpoints, retry_policy: R) -> (r:
    DeepSeekConnectionOptions<R>)
    ensures
        match kind {
            LoopKind::Og => {
                &&& r.base_url@ == router_address(opt(env.og_base_url))
                &&& r.api_key_env@ == "OG_API_KEY"@
                &&& header_views(r.extra_headers@) == seq![
                    (
                        "X-0G-Provider-Trust-Mode"@,
                        trust_name(env_trust(opt(env.og_trust_mode))),
                    ),
                ]
            },
            LoopKind::Deepseek => {
                &&& r.base_url@ == direct_address(opt(env.deepseek_base_url))
                &&& r.api_key_env@ == "DEEPSEEK_API_KEY"@
                &&& r.extra_headers@.len() == 0
            },
        },
        r.defaults.thinking is None,
        r.defaults.reasoning_effort is None,
        r.max_tokens == DEFAULT_MAX_TOKENS,
        r.default_context_window == DEFAULT_CONTEXT_WINDOW,
        r.models@.len() == 0,
        r.stream_idle_timeout_ms == DEFAULT_STREAM_IDLE_TIMEOUT_MS,
        r.retry_policy == retry_policy,
{
    let (base_url, api_key_env, extra_headers) = match kind {
        LoopKind::Og => {
            let headers = vec![
                (
                    "X-0G-Provider-Trust-Mode".to_owned(),
                    trust_header(trust_from_env(&env.og_trust_mode)),
                ),
            ];
            assert(header_views(headers@) =~= seq![
                ("X-0G-Provider-Trust-Mode"@, trust_name(env_trust(opt(env.og_trust_mode)))),
            ]);
            (crate::og::base_url(&env.og_base_url), "OG_API_KEY", headers)
        },
        LoopKind::Deepseek => (direct_url(&env.deepseek_base_url), "DEEPSEEK_API_KEY", vec![]),
    };
    DeepSeekConnectionOptions {
        base_url,
        api_key_env: api_key_env.to_owned(),
        defaults: RequestDefaults { thinking: None, reasoning_effort: None },
        max_tokens: DEFAULT_MAX_TOKENS,
        default_context_window: DEFAULT_CONTEXT_WINDOW,
        models: vec![],
        stream_idle_timeout_ms: DEFAULT_STREAM_IDLE_TIMEOUT_MS,
        retry_policy,
        extra_headers,
    }
}

/// The error of a credential that the environment does not hold.
pub fn missing_credential(reference: &str) -> (r: LlmError)
    ensures
        r@ == (ErrorView {
            message: "no API key: set "@ + reference@ + " in the environment"@,
            code: "MISSING_CREDENTIAL"@,
        }),
{
    let mut message = "no API key: set ".to_owned();
    message.append(reference);
    message.append(" in the environment");
    LlmError::new(message, "MISSING_CREDENTIAL")
}

/// The model option named `key`, where it is a string.
pub open spec fn option_text(options: Map<Seq<char>, Json>, key: Seq<char>) -> Option<Seq<char>> {
    if options.contains_key(key) {
        options[key]@.text()
    } else {
        None
    }
}

/// The model option named `key`, where it is a truth value.
pub open spec fn option_flag(options: Map<Seq<char>, Json>, key: Seq<char>) -> Option<bool> {
    if options.contains_key(key) {
        options[key]@.boolean()
    } else {
        None
    }
}

/// The model option named `key`, where it is a string.
pub fn text_option(options: &Table<Json>, key: &str) -> (r: Option<String>)
    ensures
        opt(r) == option_text(options@, key@),
{
    match options.get(key) {
        Some(value) => match value.as_str() {
            Some(text) => Some(text.clone()),
            None => None,
        },
        None => None,
    }
}

/// The model option named `key`, where it is a truth value.
pub fn flag_option(options: &Table<Json>, key: &str) -> (r: Option<bool>)
    ensures
        r == option_flag(options@, key@),
{
    match options.get(key) {
        Some(value) => value.as_bool(),
        None => None,
    }
}

/// What a request's calls are routed with. A request that names no provider order is not
/// routed; the order named `default` is the router's own and sends no header.
pub open spec fn overlay_of(options: Map<Seq<char>, Json>, og_base: Seq<char>) -> Option<
    OverlayView,
> {
    match option_text(options, "ogProviderSort"@) {
        None => None,
        Some(sort) => {
            let trust = match option_text(options, "ogTrustMode"@) {
                Some(trust) => trust,
                None => "standard"@,
            };
            let first = seq![("X-0G-Provider-Trust-Mode"@, trust)];
            Some(
                OverlayView {
                    base_url: og_base,
                    api_key_env: "OG_API_KEY"@,
                    headers: if sort == "default"@ {
                        first
                    } else {
                        first.push(("X-0G-Provider-Sort"@, sort))
                    },
                    verify_tee: option_flag(options, "ogVerifyTee"@) == Some(true),
                },
            )
        },
    }
}

/// What a request's calls are routed with.
pub fn overlay_for(request: &RunRequest, og_base: &str) -> (r: Option<RequestOverlay>)
    ensures
        (match r {
            Some(overlay) => Some(overlay@),
            None => None,
        }) == overlay_of(request.model_options@, og_base@),
{
    let sort = match text_option(&request.model_options, "ogProviderSort") {
        Some(sort) => sort,
        None => {
            return None;
        },
    };
    let trust = match text_option(&request.model_options, "ogTrustMode") {
        Some(trust) => trust,
        None => "standard".to_owned(),
    };
    let ghost first = seq![("X-0G-Provider-Trust-Mode"@, trust@)];
    let mut headers = vec![("X-0G-Provider-Trust-Mode".to_owned(), trust)];
    assert(header_views(headers@) =~= first);
    if !str_eq(sort.as_str(), "default") {
        headers.push(("X-0G-Provider-Sort".to_owned(), sort));
        assert(header_views(headers@) =~= first.push(("X-0G-Provider-Sort"@, sort@)));
    }
    let verify_tee = match flag_option(&request.model_options, "ogVerifyTee") {
        Some(flag) => flag,
        None => false,
    };
    Some(
        RequestOverlay {
            base_url: og_base.to_owned(),
            api_key_env: "OG_API_KEY".to_owned(),
            headers,
            verify_tee,
        },
    )
}

/// The visible text of a tool's output, cut where it is longer than `cap` bytes: then its
/// first `cap` characters and an ellipsis. No text is no output.
pub open spec fn capped(text: Seq<char>, cap: nat) -> Option<Seq<char>> {
    if text.len() == 0 {
        None
    } else if encode_utf8(text).len() <= cap {
        Some(text)
    } else {
        Some(head(text, cap).push('…'))
    }
}

/// The visible text of a tool's output, capped.
pub fn flatten_text_capped(content: &Vec<ContentBlock>, cap: usize) -> (r: Option<String>)
    ensures
        opt(r) == capped(flat_text(contents(content@)), cap as nat),
{
    let text = flatten_text(content);
    if text.as_str().is_empty() {
        return None;
    }
    if text.as_str().as_bytes().len() <= cap {
        return Some(text);
    }
    let mut cut = take_chars(text.as_str(), cap);
    cut.push('…');
    Some(cut)
}

/// The path that a file tool's arguments name: `file_path`, else `path`.
pub open spec fn file_argument(args: JsonView) -> Seq<char> {
    match args.member_text("file_path"@) {
        Some(path) => path,
        None => or_empty(args.member_text("path"@)),
    }
}

/// A tool call as it is displayed. `raw` are the arguments as they were written, `args` what
/// they decode to.
pub open spec fn card_of(name: Seq<char>, raw: Seq<char>, args: JsonView) -> CardView {
    if name == "bash"@ || name == "shell"@ {
        CardView::Exec {
            command: match args.member_text("command"@) {
                Some(command) => command,
                None => raw,
            },
        }
    } else if name == "read"@ || name == "read_file"@ {
        CardView::ReadFile { path: file_argument(args) }
    } else if name == "write"@ || name == "write_file"@ {
        CardView::WriteFile { path: file_argument(args), content: args.member_text("content"@) }
    } else if name == "edit"@ || name == "edit_file"@ || name == "str_replace_editor"@ {
        CardView::EditFile {
            path: file_argument(args),
            old_string: args.member_text("old_string"@),
            new_string: args.member_text("new_string"@),
        }
    } else if name == "grep"@ {
        CardView::Search {
            pattern: or_empty(args.member_text("pattern"@)),
            path: args.member_text("path"@),
        }
    } else if name == "glob"@ {
        CardView::Glob { pattern: or_empty(args.member_text("pattern"@)) }
    } else {
        CardView::Unknown {
            name,
            input: if args is Null {
                None
            } else {
                Some(args)
            },
        }
    }
}

/// The value that a tool's arguments decode to; `null` where they are no JSON document.
pub open spec fn arguments_of(raw: Seq<char>) -> JsonView {
    match json_document(raw) {
        Some(args) => args,
        None => JsonView::Null,
    }
}

fn file_path_arg(args: &Json) -> (r: String)
    ensures
        r@ == file_argument(args@),
{
    match args.get_text("file_path") {
        Some(path) => path,
        None => match args.get_text("path") {
            Some(path) => path,
            None => String::new(),
        },
    }
}

fn text_arg(args: &Json, key: &str) -> (r: Option<String>)
    ensures
        opt(r) == args@.member_text(key@),
{
    args.get_text(key)
}

fn text_arg_or_empty(args: &Json, key: &str) -> (r: String)
    ensures
        r@ == or_empty(args@.member_text(key@)),
{
    match args.get_text(key) {
        Some(text) => text,
        None => String::new(),
    }
}

/// A tool call as it is displayed, from its decoded arguments.
pub fn tool_card(name: &str, raw_arguments: &str, args: &Json) -> (r: ToolCall)
    ensures
        r@ == card_of(name@, raw_arguments@, args@),
{
    if str_eq(name, "bash") || str_eq(name, "shell") {
        return ToolCall::Exec {
            command: match args.get_text("command") {
                Some(command) => command,
                None => raw_arguments.to_owned(),
            },
        };
    }
    // The file tools take `file_path`; `path` and the `_file` names are other tools'.
    if str_eq(name, "read") || str_eq(name, "read_file") {
        return ToolCall::ReadFile { path: file_path_arg(args) };
    }
    if str_eq(name, "write") || str_eq(name, "write_file") {
        return ToolCall::WriteFile {
            path: file_path_arg(args),
            content: text_arg(args, "content"),
        };
    }
    if str_eq(name, "edit") || str_eq(name, "edit_file") || str_eq(name, "str_replace_editor") {
        return ToolCall::EditFile {
            path: file_path_arg(args),
            old_string: text_arg(args, "old_string"),
            new_string: text_arg(args, "new_string"),
        };
    }
    if str_eq(name, "grep") {
        return ToolCall::Search {
            pattern: text_arg_or_empty(args, "pattern"),
            path: text_arg(args, "path"),
        };
    }
    if str_eq(name, "glob") {
        return ToolCall::Glob { pattern: text_arg_or_empty(args, "pattern") };
    }
    ToolCall::Unknown {
        name: name.to_owned(),
        input: if args.is_null() {
            None
        } else {
            Some(json_clone(args))
        },
    }
}

/// A tool call as it is displayed. A name outside the known ones is shown as it is.
pub fn map_tool_call(name: &str, raw_arguments: &str) -> (r: ToolCall)
    ensures
        r@ == card_of(name@, raw_arguments@, arguments_of(raw_arguments@)),
{
    let args = match parse_json(raw_arguments) {
        Some(args) => args,
        None => Json::Null,
    };
    assert(args@ == arguments_of(raw_arguments@));
    tool_card(name, raw_arguments, &args)
}

/// Why a turn ended. `Other` stands for the ends that are neither aborts nor errors.
#[derive(Debug, PartialEq)]
pub enum TurnEndReason {
    Aborted,
    Error { error: LlmFailure },
    Other,
}

/// The mathematical value of a [`TurnEndReason`].
pub enum EndView {
    Aborted,
    Error { error: ErrorView },
    Other,
}

impl View for TurnEndReason {
    type V = EndView;

    open spec fn view(&self) -> EndView {
        match self {
            TurnEndReason::Aborted => EndView::Aborted,
            TurnEndReason::Error { error } => EndView::Error { error: error@ },
            TurnEndReason::Other => EndView::Other,
        }
    }
}

/// One committed event of a session log. `receipt` is what an extension's data decode to as a
/// decision receipt, within the host's bounds; `Other` stands for the events that no host
/// sees.
#[derive(Debug, PartialEq)]
pub enum SessionEventData {
    Extension { event_type: String, receipt: Option<DecisionEvent> },
    AssistantChunk { chunk: StreamChunk },
    AssistantMessage { message_id: String },
    ToolCall { call_id: String, name: String, arguments: String },
    ToolResult { content: Vec<ContentBlock> },
    TurnEnd { reason: TurnEndReason },
    Other,
}

/// The mathematical value of a [`SessionEventData`].
pub enum LogView {
    Extension { event_type: Seq<char>, receipt: Option<ReceiptView> },
    AssistantChunk { chunk: ChunkView },
    AssistantMessage { message_id: Seq<char> },
    ToolCall { call_id: Seq<char>, name: Seq<char>, arguments: Seq<char> },
    ToolResult { content: Seq<ContentView> },
    TurnEnd { reason: EndView },
    Other,
}

impl View for SessionEventData {
    type V = LogView;

    open spec fn view(&self) -> LogView {
        match self {
            SessionEventData::Extension { event_type, receipt } => LogView::Extension {
                event_type: event_type@,
                receipt: match receipt {
                    Some(r) => Some(r@),
                    None => None,
                },
            },
            SessionEventData::AssistantChunk { chunk } => LogView::AssistantChunk {
                chunk: chunk@,
            },
            SessionEventData::AssistantMessage { message_id } => LogView::AssistantMessage {
                message_id: message_id@,
            },
            SessionEventData::ToolCall { call_id, name, arguments } => LogView::ToolCall {
                call_id: call_id@,
                name: name@,
                arguments: arguments@,
            },
            SessionEventData::ToolResult { content } => LogView::ToolResult {
                content: contents(content@),
            },
            SessionEventData::TurnEnd { reason } => LogView::TurnEnd { reason: reason@ },
            SessionEventData::Other => LogView::Other,
        }
    }
}

/// The mathematical values of a session log.
pub open spec fn log_views(s: Seq<SessionEventData>) -> Seq<LogView> {
    s.map_values(|e: SessionEventData| e@)
}

/// An error in one line.
pub open spec fn failure_line(e: ErrorView) -> Seq<char> {
    e.message + " ("@ + e.code + ")"@
}

/// An error in one line.
pub fn failure_text(error: &LlmFailure) -> (r: String)
    ensures
        r@ == failure_line(error@),
{
    let mut text = error.message.clone();
    text.append(" (");
    text.append(error.code.as_str());
    text.append(")");
    text
}

/// What a committed event looks like to the host: one event, or none.
pub open spec fn told(event: LogView) -> Option<AgentView> {
    match event {
        LogView::Extension { event_type, receipt } => if event_type == "decision/receipt"@ {
            match receipt {
                Some(r) => Some(AgentView::Decision { event: r }),
                None => None,
            }
        } else {
            None
        },
        LogView::AssistantChunk { chunk } => match chunk {
            ChunkView::TextDelta { index, text } => Some(AgentView::TextDelta { text }),
            ChunkView::ReasoningDelta { index, text } => Some(AgentView::ReasoningDelta { text }),
            ChunkView::Usage { usage } => Some(
                AgentView::Usage {
                    input_tokens: usage.input_tokens,
                    output_tokens: usage.output_tokens,
                },
            ),
            _ => None,
        },
        LogView::AssistantMessage { message_id } => Some(
            AgentView::AssistantMessageCompleted { assistant_message_id: message_id },
        ),
        LogView::ToolCall { call_id, name, arguments } => Some(
            AgentView::ToolCall {
                id: call_id,
                call: card_of(name, arguments, arguments_of(arguments)),
            },
        ),
        LogView::ToolResult { content } => if content.len() > 0 {
            match content[0] {
                ContentView::ToolResult { tool_call_id, is_error, content } => Some(
                    AgentView::ToolResult {
                        id: tool_call_id,
                        is_error: is_error == Some(true),
                        output: capped(flat_text(content), 4_000),
                    },
                ),
                _ => None,
            }
        } else {
            None
        },
        LogView::TurnEnd { reason } => match reason {
            EndView::Error { error } => Some(AgentView::Error { message: failure_line(error) }),
            _ => None,
        },
        LogView::Other => None,
    }
}

/// The list of what is told.
pub open spec fn told_list(event: LogView) -> Seq<AgentView> {
    match told(event) {
        Some(e) => seq![e],
        None => Seq::empty(),
    }
}

fn translate_one(event: &SessionEventData) -> (r: Option<AgentEvent>)
    ensures
        (match r {
            Some(e) => Some(e@),
            None => None,
        }) == told(event@),
{
    match event {
        SessionEventData::Extension { event_type, receipt } => if str_eq(
            event_type.as_str(),
            "decision/receipt",
        ) {
            match receipt {
                Some(receipt) => Some(AgentEvent::Decision { event: clone_event(receipt) }),
                None => None,
            }
        } else {
            None
        },
        SessionEventData::AssistantChunk { chunk } => match chunk {
            StreamChunk::TextDelta { index: _, text } => Some(
                AgentEvent::TextDelta { text: text.clone() },
            ),
            StreamChunk::ReasoningDelta { index: _, text } => Some(
                AgentEvent::ReasoningDelta { text: text.clone() },
            ),
            StreamChunk::Usage { usage } => Some(
                AgentEvent::Usage {
                    input_tokens: usage.input_tokens,
                    output_tokens: usage.output_tokens,
                },
            ),
            _ => None,
        },
        SessionEventData::AssistantMessage { message_id } => Some(
            AgentEvent::AssistantMessageCompleted { assistant_message_id: message_id.clone() },
        ),
        SessionEventData::ToolCall { call_id, name, arguments } => Some(
            AgentEvent::ToolCall {
                id: call_id.clone(),
                call: map_tool_call(name.as_str(), arguments.as_str()),
            },
        ),
        SessionEventData::ToolResult { content } => {
            if content.len() == 0 {
                return None;
            }
            assert(contents(content@)[0] == content@[0]@);
            match &content[0] {
                ContentBlock::ToolResult { tool_call_id, is_error, content: output } => {
                    assert(contents(output@) =~= content@[0]@->ToolResult_content);
                    Some(
                        AgentEvent::ToolResult {
                            id: tool_call_id.clone(),
                            is_error: match is_error {
                                Some(flag) => *flag,
                                None => false,
                            },
                            output: flatten_text_capped(output, 4_000),
                        },
                    )
                },
                _ => None,
            }
        },
        SessionEventData::TurnEnd { reason } => match reason {
            TurnEndReason::Error { error } => Some(
                AgentEvent::Error { message: failure_text(error) },
            ),
            _ => None,
        },
        SessionEventData::Other => None,
    }
}

/// What a committed event looks like to the host.
pub fn translate(event: &SessionEventData) -> (r: Vec<AgentEvent>)
    ensures
        agent_views(r@) == told_list(event@),
{
    let mut out: Vec<AgentEvent> = Vec::new();
    if let Some(e) = translate_one(event) {
        out.push(e);
    }
    assert(agent_views(out@) =~= told_list(event@));
    out
}

/// What a change of the live selector status looks like to the host. It is never part of the
/// session log.
pub fn activity_event(activity: Option<DecisionActivity>) -> (r: AgentEvent)
    ensures
        r@ == (AgentView::DecisionActivity { activity }),
{
    AgentEvent::DecisionActivity { activity }
}

/// To whom a committed event of a session goes, and as what. `F` is the way to one engine; a
/// session that is not forwarded goes to nobody.
pub fn forward_event<'a, F>(
    forwarders: &'a Table<F>,
    session_id: &str,
    event: &SessionEventData,
) -> (r: Option<(&'a F, Vec<AgentEvent>)>)
    ensures
        match r {
            Some((to, events)) => {
                &&& forwarders@.contains_key(session_id@)
                &&& *to == forwarders@[session_id@]
                &&& agent_views(events@) == told_list(event@)
            },
            None => !forwarders@.contains_key(session_id@),
        },
{
    match forwarders.get(session_id) {
        Some(to) => Some((to, translate(event))),
        None => None,
    }
}

/// To whom a change of a session's selector status goes, and as what.
pub fn forward_activity<'a, F>(
    forwarders: &'a Table<F>,
    session_id: &str,
    activity: Option<DecisionActivity>,
) -> (r: Option<(&'a F, AgentEvent)>)
    ensures
        match r {
            Some((to, event)) => {
                &&& forwarders@.contains_key(session_id@)
                &&& *to == forwarders@[session_id@]
                &&& event@ == (AgentView::DecisionActivity { activity })
            },
            None => !forwarders@.contains_key(session_id@),
        },
{
    match forwarders.get(session_id) {
        Some(to) => Some((to, activity_event(activity))),
        None => None,
    }
}

/// A run that ended in an error before it had a session: the error, then the end.
pub open spec fn failed_run(message: Seq<char>, error: Seq<char>) -> Seq<AgentView> {
    seq![
        AgentView::Error { message },
        AgentView::Done { status: DoneStatus::Errored, error: Some(error), session_id: None },
    ]
}

fn failed_events(message: String, error: &str) -> (r: Vec<AgentEvent>)
    ensures
        agent_views(r@) == failed_run(message@, error@),
{
    let r = vec![
        AgentEvent::Error { message },
        AgentEvent::Done {
            status: DoneStatus::Errored,
            error: Some(error.to_owned()),
            session_id: None,
        },
    ];
    assert(agent_views(r@) =~= failed_run(message@, error@));
    r
}

/// What every run of a loop gets that could not be started.
pub fn startup_failure(kind: LoopKind, error: &str) -> (r: Vec<AgentEvent>)
    ensures
        agent_views(r@) == failed_run(
            runtime_of(kind) + " runtime failed to start: "@ + error@,
            error@,
        ),
{
    let mut message = runtime_name(kind).to_owned();
    message.append(" runtime failed to start: ");
    message.append(error);
    failed_events(message, error)
}

/// What a run gets that failed.
pub fn run_failure(error: &str) -> (r: Vec<AgentEvent>)
    ensures
        agent_views(r@) == failed_run(error@, error@),
{
    failed_events(error.to_owned(), error)
}

/// Every known tool has a card of its own, whatever its arguments; only other names are shown
/// as they are.
pub proof fn law_known_tools_have_cards(name: Seq<char>, raw: Seq<char>, args: JsonView)
    ensures
        ({
            let known = name == "bash"@ || name == "shell"@ || name == "read"@ || name
                == "read_file"@ || name == "write"@ || name == "write_file"@ || name == "edit"@
                || name == "edit_file"@ || name == "str_replace_editor"@ || name == "grep"@ || name
                == "glob"@;
            card_of(name, raw, args) is Unknown <==> !known
        }),
{
}

/// Arguments that are no JSON document still render: a shell card shows them as they were
/// written.
pub proof fn law_malformed_arguments_still_render(name: Seq<char>, raw: Seq<char>)
    requires
        json_document(raw) is None,
        name == "bash"@ || name == "shell"@,
    ensures
        card_of(name, raw, arguments_of(raw)) == (CardView::Exec { command: raw }),
{
}

/// A tool's call and its result are told under the id of the call.
pub proof fn law_calls_and_results_keep_their_id(
    id: Seq<char>,
    name: Seq<char>,
    arguments: Seq<char>,
    is_error: Option<bool>,
    output: Seq<ContentView>,
)
    ensures
        told(LogView::ToolCall { call_id: id, name, arguments }) matches Some(
            AgentView::ToolCall { id: shown, .. },
        ) && shown == id,
        told(
            LogView::ToolResult {
                content: seq![
                    ContentView::ToolResult { tool_call_id: id, is_error, content: output },
                ],
            },
        ) matches Some(AgentView::ToolResult { id: shown, .. }) && shown == id,
{
}

/// A run that fails, at its start or later, is told its error and then its end, and nothing
/// follows the end.
pub proof fn law_failed_runs_end(message: Seq<char>, error: Seq<char>)
    ensures
        failed_run(message, error).len() == 2,
        failed_run(message, error)[0] is Error,
        failed_run(message, error)[1] is Done,
        failed_run(message, error)[1]->Done_status == DoneStatus::Errored,
{
}

/// Tool output is bounded: at most `cap` characters and the mark of the cut.
pub proof fn law_output_is_bounded(text: Seq<char>, cap: nat)
    ensures
        capped(text, cap) matches Some(shown) ==> shown.len() <= cap + 1,
{
    if encode_utf8(text).len() <= cap {
        lemma_bytes_bound_chars(text);
    }
}

/// A text has at least as many bytes as characters.
proof fn lemma_bytes_bound_chars(text: Seq<char>)
    ensures
        text.len() <= encode_utf8(text).len(),
    decreases text.len(),
{
    if text.len() > 0 {
        lemma_bytes_bound_chars(text.drop_first());
    }
}

/// What the model says is told word for word: a text delta as a text delta, a reasoning delta as
/// a reasoning delta; usage is told by its two counts, and a finished message by its id.
pub proof fn law_what_the_model_says_is_told(
    index: int,
    text: Seq<char>,
    usage: TokenUsage,
    id: Seq<char>,
)
    ensures
        told_list(LogView::AssistantChunk { chunk: ChunkView::TextDelta { index, text } }) == seq![
            AgentView::TextDelta { text },
        ],
        told_list(
            LogView::AssistantChunk { chunk: ChunkView::ReasoningDelta { index, text } },
        ) == seq![AgentView::ReasoningDelta { text }],
        told_list(LogView::AssistantChunk { chunk: ChunkView::Usage { usage } }) == seq![
            AgentView::Usage {
                input_tokens: usage.input_tokens,
                output_tokens: usage.output_tokens,
            },
        ],
        told_list(LogView::AssistantMessage { message_id: id }) == seq![
            AgentView::AssistantMessageCompleted { assistant_message_id: id },
        ],
{
}

/// What is for the log alone is not told: block starts and ends, tool-call fragments, finishes,
/// other extensions, receipts that do not decode, tool results that hold none, and turns that
/// did not fail.
pub proof fn law_the_rest_is_not_told(event: LogView)
    requires
        match event {
            LogView::Extension { event_type, receipt } => event_type != "decision/receipt"@
                || receipt is None,
            LogView::AssistantChunk { chunk } => chunk is BlockStart || chunk is BlockEnd || chunk
                is ToolCallDelta || chunk is Finish,
            LogView::ToolResult { content } => content.len() == 0 || !(content[0] is ToolResult),
            LogView::TurnEnd { reason } => !(reason is Error),
            LogView::Other => true,
            _ => false,
        },
    ensures
        told_list(event).len() == 0,
{
}

/// A receipt is told as it is, and a failed turn as an error with its message and code.
pub proof fn law_receipts_and_failures_are_told(receipt: ReceiptView, error: ErrorView)
    ensures
        told_list(
            LogView::Extension { event_type: "decision/receipt"@, receipt: Some(receipt) },
        ) == seq![AgentView::Decision { event: receipt }],
        told_list(LogView::TurnEnd { reason: EndView::Error { error } }) == seq![
            AgentView::Error { message: error.message + " ("@ + error.code + ")"@ },
        ],
{
}

/// A tool call is told by its card, and its result by its visible text, whole up to 4,000 bytes
/// and cut behind 4,000 characters beyond that, with whether it was an error. A result without a
/// text has no output.
pub proof fn law_tools_are_told_with_their_output(
    call: LogView,
    id: Seq<char>,
    is_error: Option<bool>,
    output: Seq<ContentView>,
    rest: Seq<ContentView>,
)
    requires
        call is ToolCall,
    ensures
        told_list(call) == seq![
            AgentView::ToolCall {
                id: call->ToolCall_call_id,
                call: card_of(
                    call->ToolCall_name,
                    call->ToolCall_arguments,
                    arguments_of(call->ToolCall_arguments),
                ),
            },
        ],
        ({
            let result = ContentView::ToolResult { tool_call_id: id, is_error, content: output };
            let text = flat_text(output);
            told_list(LogView::ToolResult { content: seq![result] + rest }) == seq![
                AgentView::ToolResult {
                    id,
                    is_error: is_error == Some(true),
                    output: if text.len() == 0 {
                        None
                    } else if encode_utf8(text).len() <= 4_000 {
                        Some(text)
                    } else {
                        Some(text.take(vstd::math::min(4_000, text.len() as int)).push('…'))
                    },
                },
            ]
        }),
        told_list(LogView::ToolResult { content: Seq::empty() }).len() == 0,
{
    law_the_head_is_the_first_characters(flat_text(output), 4_000);
    let result = ContentView::ToolResult { tool_call_id: id, is_error, content: output };
    assert((seq![result] + rest)[0] == result);
}

/// What a tool's arguments say in a member, or nothing.
pub open spec fn said_in(args: JsonView, key: Seq<char>) -> Seq<char> {
    match args.member(key) {
        Some(JsonView::Text(text)) => text,
        _ => Seq::empty(),
    }
}

/// The arguments have a text in a member.
pub open spec fn speaks_of(args: JsonView, key: Seq<char>) -> bool {
    args.member(key) matches Some(value) && value is Text
}

/// A shell card shows the command, or the arguments as they were written where there is none.
pub proof fn law_shell_cards_show_the_command(name: Seq<char>, raw: Seq<char>, args: JsonView)
    requires
        name == "bash"@ || name == "shell"@,
    ensures
        speaks_of(args, "command"@) ==> card_of(name, raw, args) == (CardView::Exec {
            command: said_in(args, "command"@),
        }),
        !speaks_of(args, "command"@) ==> card_of(name, raw, args) == (CardView::Exec {
            command: raw,
        }),
{
}

proof fn lemma_tool_names()
    ensures
        "bash"@.len() == 4 && "bash"@[0] == 'b',
        "shell"@.len() == 5 && "shell"@[0] == 's',
        "read"@.len() == 4 && "read"@[0] == 'r',
        "read_file"@.len() == 9 && "read_file"@[0] == 'r',
        "write"@.len() == 5 && "write"@[0] == 'w',
        "write_file"@.len() == 10 && "write_file"@[0] == 'w',
        "edit"@.len() == 4 && "edit"@[0] == 'e',
        "edit_file"@.len() == 9 && "edit_file"@[0] == 'e',
        "str_replace_editor"@.len() == 18,
        "grep"@.len() == 4 && "grep"@[0] == 'g' && "grep"@[1] == 'r',
        "glob"@.len() == 4 && "glob"@[0] == 'g' && "glob"@[1] == 'l',
{
    reveal_strlit("bash");
    reveal_strlit("shell");
    reveal_strlit("read");
    reveal_strlit("read_file");
    reveal_strlit("write");
    reveal_strlit("write_file");
    reveal_strlit("edit");
    reveal_strlit("edit_file");
    reveal_strlit("str_replace_editor");
    reveal_strlit("grep");
    reveal_strlit("glob");
}

/// The cards of the file tools name the file that the arguments name: `file_path` before `path`.
/// A write shows the content, an edit both strings, as far as they are there.
pub proof fn law_file_cards_name_the_file(name: Seq<char>, raw: Seq<char>, args: JsonView)
    ensures
        ({
            let file = if speaks_of(args, "file_path"@) {
                said_in(args, "file_path"@)
            } else {
                said_in(args, "path"@)
            };
            let maybe = |key: Seq<char>|
                if speaks_of(args, key) {
                    Some(said_in(args, key))
                } else {
                    None
                };
            let card = card_of(name, raw, args);
            &&& name == "read"@ || name == "read_file"@ ==> card == (CardView::ReadFile {
                path: file,
            })
            &&& name == "write"@ || name == "write_file"@ ==> card == (CardView::WriteFile {
                path: file,
                content: maybe("content"@),
            })
            &&& name == "edit"@ || name == "edit_file"@ || name == "str_replace_editor"@ ==> card
                == (CardView::EditFile {
                path: file,
                old_string: maybe("old_string"@),
                new_string: maybe("new_string"@),
            })
        }),
{
    lemma_tool_names();
}

/// The cards of the search tools show the pattern, and a text search the place; a tool that is
/// not known shows its name and what its arguments decode to.
pub proof fn law_search_cards_show_the_pattern(name: Seq<char>, raw: Seq<char>, args: JsonView)
    ensures
        name == "grep"@ ==> card_of(name, raw, args) == (CardView::Search {
            pattern: said_in(args, "pattern"@),
            path: if speaks_of(args, "path"@) {
                Some(said_in(args, "path"@))
            } else {
                None
            },
        }),
        name == "glob"@ ==> card_of(name, raw, args) == (CardView::Glob {
            pattern: said_in(args, "pattern"@),
        }),
        card_of(name, raw, args) matches CardView::Unknown { name: shown, input } ==> shown == name
            && (input is Some <==> !(args is Null)) && (input is Some ==> input == Some(args)),
{
    lemma_tool_names();
}

/// A request is routed exactly where it names an order of providers as a text, to the router
/// with the router's credential. The trust mode is the named one, or standard; an order other
/// than the router's own is sent as named; an attestation is asked for only where the request
/// says so.
pub proof fn law_overlays_carry_what_is_asked(options: Map<Seq<char>, Json>, og_base: Seq<char>)
    ensures
        ({
            let text = |key: Seq<char>| options.contains_key(key) && options[key]@ is Text;
            let said = |key: Seq<char>| options[key]@->Text_0;
            let overlay = overlay_of(options, og_base);
            let sort = "ogProviderSort"@;
            let trust = if text("ogTrustMode"@) {
                said("ogTrustMode"@)
            } else {
                "standard"@
            };
            &&& overlay is Some <==> text(sort)
            &&& overlay matches Some(o) ==> {
                &&& o.base_url == og_base
                &&& o.api_key_env == "OG_API_KEY"@
                &&& o.headers[0] == ("X-0G-Provider-Trust-Mode"@, trust)
                &&& said(sort) == "default"@ ==> o.headers.len() == 1
                &&& said(sort) != "default"@ ==> o.headers.len() == 2 && o.headers[1] == (
                    "X-0G-Provider-Sort"@,
                    said(sort),
                )
                &&& o.verify_tee <==> options.contains_key("ogVerifyTee"@)
                    && options["ogVerifyTee"@]@ == JsonView::Bool(true)
            }
        }),
{
}

/// Each loop is a harness of its own.
pub proof fn law_loops_are_their_own_harness(kind: LoopKind)
    ensures
        harness_of_kind(kind) == HarnessId::Dsh <==> kind == LoopKind::Deepseek,
        harness_of_kind(kind) == HarnessId::Og <==> kind == LoopKind::Og,
        kind == LoopKind::Og ==> runtime_of(kind) == "0G router"@,
        kind == LoopKind::Deepseek ==> runtime_of(kind) == "dsh"@,
{
}

/// The direct endpoint is the one that is named, without the slashes at the end, or the public
/// one.
pub proof fn law_the_direct_endpoint_is_the_named_one(url: Seq<char>)
    ensures
        direct_address(Some(url)) == without_trailing(url, '/'),
        direct_address(None) == "https://api.deepseek.com"@,
{
}

/// The direct loop offers its two models, by their ids and names, with medium effort alone.
pub proof fn law_the_direct_loop_offers_two_models()
    ensures
        ({
            let offers = deepseek_offers();
            &&& offers.len() == 2
            &&& offers[0].id == "deepseek-chat"@ && offers[0].label == "DeepSeek Chat"@
            &&& offers[1].id == "deepseek-reasoner"@ && offers[1].label == "DeepSeek Reasoner"@
            &&& forall|i: int|
                0 <= i < 2 ==> (#[trigger] offers[i]).description is None
                    && offers[i].reasoning_levels == seq![ReasoningLevel::Medium]
        }),
{
}

/// A run that fails before it has a session is told what went wrong, in the error and in the
/// end, and its end names no session.
pub proof fn law_failed_runs_say_why(message: Seq<char>, error: Seq<char>)
    ensures
        failed_run(message, error)[0] == (AgentView::Error { message }),
        failed_run(message, error)[1]->Done_error == Some(error),
        failed_run(message, error)[1]->Done_session_id is None,
{
}

/// Output is shown whole where its bytes fit the cap, and behind the cap it is cut to as many
/// characters, with a mark; no text is no output.
pub proof fn law_output_is_cut_behind_the_cap(text: Seq<char>, cap: nat)
    ensures
        text.len() == 0 ==> capped(text, cap) is None,
        text.len() > 0 && encode_utf8(text).len() <= cap ==> capped(text, cap) == Some(text),
        text.len() > 0 && encode_utf8(text).len() > cap ==> capped(text, cap) == Some(
            text.take(vstd::math::min(cap as int, text.len() as int)).push('…'),
        ),
{
    law_the_head_is_the_first_characters(text, cap);
}

/// Arguments are what they decode to, and `null` where they do not decode.
pub proof fn law_arguments_are_decoded(raw: Seq<char>)
    ensures
        json_document(raw) matches Some(value) ==> arguments_of(raw) == value,
        json_document(raw) is None ==> arguments_of(raw) is Null,
{
}

/// An option counts where it is there and of its kind.
pub proof fn law_options_count_by_their_kind(
    options: Map<Seq<char>, Json>,
    key: Seq<char>,
    text: Seq<char>,
    flag: bool,
)
    ensures
        option_text(options, key) == Some(text) <==> options.contains_key(key) && options[key]@
            == JsonView::Text(text),
        option_flag(options, key) == Some(flag) <==> options.contains_key(key) && options[key]@
            == JsonView::Bool(flag),
{
}

}
