//! Data that the workspace's host and its harnesses exchange.

use crate::json::Json;
use crate::table::Table;
use crate::text::{opt, views};
use vstd::prelude::*;

verus! {

/// The coding tools that a task can run on.
#[derive(Debug, Clone, Copy, PartialEq, Eq, Structural)]
pub enum HarnessId {
    ClaudeCode,
    Codex,
    Cursor,
    Grok,
    Hermes,
    Pi,
    Dsh,
    Og,
    Mock,
}

#[derive(Debug, Clone, Copy, PartialEq, Eq, Structural)]
pub enum ReasoningLevel {
    Medium,
    High,
}

/// When a running task takes up a steering message.
#[derive(Debug, Clone, Copy, PartialEq, Eq, Structural)]
pub enum SteeringMode {
    StepBoundary,
}

/// One task for a harness. `sandbox` is the name of the sandbox level, and `attachments` the
/// number of attached images.
pub struct RunRequest {
    pub prompt: String,
    pub harness: Option<HarnessId>,
    pub model: Option<String>,
    pub reasoning: Option<ReasoningLevel>,
    pub model_options: Table<Json>,
    pub cwd: String,
    pub sandbox: String,
    pub auto_approve: bool,
    pub resume: Option<String>,
    pub attachments: u64,
}

/// A model that a harness offers.
#[derive(Debug, PartialEq)]
pub struct Model {
    pub id: String,
    pub label: String,
    pub description: Option<String>,
    pub reasoning_levels: Vec<ReasoningLevel>,
}

/// The mathematical value of a [`Model`].
pub struct OfferView {
    pub id: Seq<char>,
    pub label: Seq<char>,
    pub description: Option<Seq<char>>,
    pub reasoning_levels: Seq<ReasoningLevel>,
}

impl View for Model {
    type V = OfferView;

    open spec fn view(&self) -> OfferView {
        OfferView {
            id: self.id@,
            label: self.label@,
            description: opt(self.description),
            reasoning_levels: self.reasoning_levels@,
        }
    }
}

/// A tool call, decoded for display.
#[derive(Debug, PartialEq)]
pub enum ToolCall {
    Exec { command: String },
    ReadFile { path: String },
    WriteFile { path: String, content: Option<String> },
    EditFile { path: String, old_string: Option<String>, new_string: Option<String> },
    Search { pattern: String, path: Option<String> },
    Glob { pattern: String },
    Unknown { name: String, input: Option<Json> },
}

/// The mathematical value of a [`ToolCall`].
pub enum CardView {
    Exec { command: Seq<char> },
    ReadFile { path: Seq<char> },
    WriteFile { path: Seq<char>, content: Option<Seq<char>> },
    EditFile {
        path: Seq<char>,
        old_string: Option<Seq<char>>,
        new_string: Option<Seq<char>>,
    },
    Search { pattern: Seq<char>, path: Option<Seq<char>> },
    Glob { pattern: Seq<char> },
    Unknown { name: Seq<char>, input: Option<crate::json::JsonView> },
}

impl View for ToolCall {
    type V = CardView;

    open spec fn view(&self) -> CardView {
        match self {
            ToolCall::Exec { command } => CardView::Exec { command: command@ },
            ToolCall::ReadFile { path } => CardView::ReadFile { path: path@ },
            ToolCall::WriteFile { path, content } => CardView::WriteFile {
                path: path@,
                content: opt(*content),
            },
            ToolCall::EditFile { path, old_string, new_string } => CardView::EditFile {
                path: path@,
                old_string: opt(*old_string),
                new_string: opt(*new_string),
            },
            ToolCall::Search { pattern, path } => CardView::Search {
                pattern: pattern@,
                path: opt(*path),
            },
            ToolCall::Glob { pattern } => CardView::Glob { pattern: pattern@ },
            ToolCall::Unknown { name, input } => CardView::Unknown {
                name: name@,
                input: match input {
                    Some(v) => Some(v@),
                    None => None,
                },
            },
        }
    }
}

/// Who made a decision.
#[derive(Debug, Clone, Copy, PartialEq, Eq, Structural)]
pub enum DecisionBackend {
    Jev,
    Laya,
    Host,
}

/// What a selector is working on.
#[derive(Debug, Clone, Copy, PartialEq, Eq, Structural)]
pub enum DecisionPhase {
    ChoosingFocus,
}

/// Live status of a selector.
#[derive(Debug, Clone, Copy, PartialEq, Eq, Structural)]
pub struct DecisionActivity {
    pub backend: DecisionBackend,
    pub phase: DecisionPhase,
}

/// At which point of a task a decision was made.
#[derive(Debug, Clone, Copy, PartialEq, Eq, Structural)]
pub enum DecisionStage {
    Intake,
    PreStep,
}

/// What the host made of a selector's answer.
#[derive(Debug, Clone, Copy, PartialEq, Eq, Structural)]
pub enum DecisionValidation {
    Accepted,
    Rejected,
    Stale,
    Expired,
    Unauthorized,
}

/// One option that was put before a selector.
#[derive(Debug, PartialEq)]
pub struct DecisionCandidate {
    pub id: String,
    pub summary: String,
}

impl View for DecisionCandidate {
    type V = (Seq<char>, Seq<char>);

    open spec fn view(&self) -> (Seq<char>, Seq<char>) {
        (self.id@, self.summary@)
    }
}

/// The values of a list of candidates.
pub open spec fn candidate_views(s: Seq<DecisionCandidate>) -> Seq<(Seq<char>, Seq<char>)> {
    s.map_values(|c: DecisionCandidate| c@)
}

/// What a selector answered.
#[derive(Debug, PartialEq)]
pub enum DecisionResult {
    Selected { candidate_id: String },
    Abstained,
}

/// The selected id, where there is one.
pub open spec fn selected_id(r: DecisionResult) -> Option<Seq<char>> {
    match r {
        DecisionResult::Selected { candidate_id } => Some(candidate_id@),
        DecisionResult::Abstained => None,
    }
}

/// The receipt of one decision. The three likelihoods are IEEE 754 doubles by their bits.
/// `fallbacks` are the reasons for falling back, in the order in which they came up.
#[derive(Debug, PartialEq)]
pub struct DecisionEvent {
    pub id: String,
    pub revision: u64,
    pub backend: DecisionBackend,
    pub stage: DecisionStage,
    pub candidates: Vec<DecisionCandidate>,
    pub result: DecisionResult,
    pub validation: DecisionValidation,
    pub at_ms: i64,
    pub confidence_bits: Option<u64>,
    pub selected_probability_bits: Option<u64>,
    pub fit_bits: Option<u64>,
    pub fallbacks: Vec<String>,
    pub observed_outcome: Option<String>,
}

/// The mathematical value of a [`DecisionEvent`].
pub struct ReceiptView {
    pub id: Seq<char>,
    pub revision: u64,
    pub backend: DecisionBackend,
    pub stage: DecisionStage,
    pub candidates: Seq<(Seq<char>, Seq<char>)>,
    pub selected: Option<Seq<char>>,
    pub validation: DecisionValidation,
    pub at_ms: i64,
    pub confidence_bits: Option<u64>,
    pub selected_probability_bits: Option<u64>,
    pub fit_bits: Option<u64>,
    pub fallbacks: Seq<Seq<char>>,
    pub observed_outcome: Option<Seq<char>>,
}

impl View for DecisionEvent {
    type V = ReceiptView;

    open spec fn view(&self) -> ReceiptView {
        ReceiptView {
            id: self.id@,
            revision: self.revision,
            backend: self.backend,
            stage: self.stage,
            candidates: candidate_views(self.candidates@),
            selected: selected_id(self.result),
            validation: self.validation,
            at_ms: self.at_ms,
            confidence_bits: self.confidence_bits,
            selected_probability_bits: self.selected_probability_bits,
            fit_bits: self.fit_bits,
            fallbacks: views(self.fallbacks@),
            observed_outcome: opt(self.observed_outcome),
        }
    }
}

/// A copy of a receipt.
pub fn clone_event(e: &DecisionEvent) -> (r: DecisionEvent)
    ensures
        r@ == e@,
{
    let mut candidates: Vec<DecisionCandidate> = Vec::new();
    let mut i: usize = 0;
    while i < e.candidates.len()
        invariant
            i <= e.candidates@.len(),
            candidates@.len() == i,
            forall|k: int| 0 <= k < i ==> (#[trigger] candidates@[k])@ == e.candidates@[k]@,
        decreases e.candidates@.len() - i,
    {
        candidates.push(
            DecisionCandidate {
                id: e.candidates[i].id.clone(),
                summary: e.candidates[i].summary.clone(),
            },
        );
        i = i + 1;
    }
    assert(candidate_views(candidates@) =~= candidate_views(e.candidates@));
    DecisionEvent {
        id: e.id.clone(),
        revision: e.revision,
        backend: e.backend,
        stage: e.stage,
        candidates,
        result: match &e.result {
            DecisionResult::Selected { candidate_id } => DecisionResult::Selected {
                candidate_id: candidate_id.clone(),
            },
            DecisionResult::Abstained => DecisionResult::Abstained,
        },
        validation: e.validation,
        at_ms: e.at_ms,
        confidence_bits: e.confidence_bits,
        selected_probability_bits: e.selected_probability_bits,
        fit_bits: e.fit_bits,
        fallbacks: crate::text::clone_strings(&e.fallbacks),
        observed_outcome: crate::text::clone_opt(&e.observed_outcome),
    }
}

/// How a run ended.
#[derive(Debug, Clone, Copy, PartialEq, Eq, Structural)]
pub enum DoneStatus {
    Completed,
    Interrupted,
    Errored,
}

/// One event of a run, as the host sees it.
#[derive(Debug, PartialEq)]
pub enum AgentEvent {
    SessionStarted {
        harness: HarnessId,
        model: String,
        cwd: String,
        session_id: String,
        assistant_message_id: String,
    },
    TextDelta { text: String },
    ReasoningDelta { text: String },
    Usage { input_tokens: u64, output_tokens: u64 },
    AssistantMessageCompleted { assistant_message_id: String },
    ToolCall { id: String, call: ToolCall },
    ToolResult { id: String, is_error: bool, output: Option<String> },
    Decision { event: DecisionEvent },
    DecisionActivity { activity: Option<DecisionActivity> },
    Error { message: String },
    Done { status: DoneStatus, error: Option<String>, session_id: Option<String> },
}

/// The mathematical value of an [`AgentEvent`].
pub enum AgentView {
    SessionStarted {
        harness: HarnessId,
        model: Seq<char>,
        cwd: Seq<char>,
        session_id: Seq<char>,
        assistant_message_id: Seq<char>,
    },
    TextDelta { text: Seq<char> },
    ReasoningDelta { text: Seq<char> },
    Usage { input_tokens: u64, output_tokens: u64 },
    AssistantMessageCompleted { assistant_message_id: Seq<char> },
    ToolCall { id: Seq<char>, call: CardView },
    ToolResult { id: Seq<char>, is_error: bool, output: Option<Seq<char>> },
    Decision { event: ReceiptView },
    DecisionActivity { activity: Option<DecisionActivity> },
    Error { message: Seq<char> },
    Done { status: DoneStatus, error: Option<Seq<char>>, session_id: Option<Seq<char>> },
}

impl View for AgentEvent {
    type V = AgentView;

    open spec fn view(&self) -> AgentView {
        match self {
            AgentEvent::SessionStarted { harness, model, cwd, session_id, assistant_message_id } =>
                AgentView::SessionStarted {
                harness: *harness,
                model: model@,
                cwd: cwd@,
                session_id: session_id@,
                assistant_message_id: assistant_message_id@,
            },
            AgentEvent::TextDelta { text } => AgentView::TextDelta { text: text@ },
            AgentEvent::ReasoningDelta { text } => AgentView::ReasoningDelta { text: text@ },
            AgentEvent::Usage { input_tokens, output_tokens } => AgentView::Usage {
                input_tokens: *input_tokens,
                output_tokens: *output_tokens,
            },
            AgentEvent::AssistantMessageCompleted { assistant_message_id } =>
                AgentView::AssistantMessageCompleted {
                assistant_message_id: assistant_message_id@,
            },
            AgentEvent::ToolCall { id, call } => AgentView::ToolCall { id: id@, call: call@ },
            AgentEvent::ToolResult { id, is_error, output } => AgentView::ToolResult {
                id: id@,
                is_error: *is_error,
                output: opt(*output),
            },
            AgentEvent::Decision { event } => AgentView::Decision { event: event@ },
            AgentEvent::DecisionActivity { activity } => AgentView::DecisionActivity {
                activity: *activity,
            },
            AgentEvent::Error { message } => AgentView::Error { message: message@ },
            AgentEvent::Done { status, error, session_id } => AgentView::Done {
                status: *status,
                error: opt(*error),
                session_id: opt(*session_id),
            },
        }
    }
}

/// The values of a list of events.
pub open spec fn agent_views(s: Seq<AgentEvent>) -> Seq<AgentView> {
    s.map_values(|e: AgentEvent| e@)
}

/// What the host sees of a run stands for what its events say.
pub proof fn law_events_stand_for_what_they_say(e: AgentEvent)
    ensures
        e matches AgentEvent::TextDelta { text } ==> e@ == (AgentView::TextDelta { text: text@ }),
        e matches AgentEvent::ReasoningDelta { text } ==> e@ == (AgentView::ReasoningDelta {
            text: text@,
        }),
        e matches AgentEvent::Usage { input_tokens, output_tokens } ==> e@ == (AgentView::Usage {
            input_tokens,
            output_tokens,
        }),
        e matches AgentEvent::AssistantMessageCompleted { assistant_message_id } ==> e@ == (
        AgentView::AssistantMessageCompleted { assistant_message_id: assistant_message_id@ }),
        e matches AgentEvent::ToolCall { id, call } ==> e@ == (AgentView::ToolCall {
            id: id@,
            call: call@,
        }),
        e matches AgentEvent::ToolResult { id, is_error, output } ==> e@ == (
        AgentView::ToolResult { id: id@, is_error, output: opt(output) }),
        e matches AgentEvent::Decision { event } ==> e@ == (AgentView::Decision { event: event@ }),
        e matches AgentEvent::DecisionActivity { activity } ==> e@ == (
        AgentView::DecisionActivity { activity }),
        e matches AgentEvent::Error { message } ==> e@ == (AgentView::Error {
            message: message@,
        }),
        e matches AgentEvent::Done { status, error, session_id } ==> e@ == (AgentView::Done {
            status,
            error: opt(error),
            session_id: opt(session_id),
        }),
        e matches AgentEvent::SessionStarted {
            harness,
            model,
            cwd,
            session_id,
            assistant_message_id,
        } ==> e@ == (AgentView::SessionStarted {
            harness,
            model: model@,
            cwd: cwd@,
            session_id: session_id@,
            assistant_message_id: assistant_message_id@,
        }),
{
}

/// A card stands for what it shows.
pub proof fn law_cards_stand_for_what_they_show(c: ToolCall)
    ensures
        c matches ToolCall::Exec { command } ==> c@ == (CardView::Exec { command: command@ }),
        c matches ToolCall::ReadFile { path } ==> c@ == (CardView::ReadFile { path: path@ }),
        c matches ToolCall::WriteFile { path, content } ==> c@ == (CardView::WriteFile {
            path: path@,
            content: opt(content),
        }),
        c matches ToolCall::EditFile { path, old_string, new_string } ==> c@ == (
        CardView::EditFile {
            path: path@,
            old_string: opt(old_string),
            new_string: opt(new_string),
        }),
        c matches ToolCall::Search { pattern, path } ==> c@ == (CardView::Search {
            pattern: pattern@,
            path: opt(path),
        }),
        c matches ToolCall::Glob { pattern } ==> c@ == (CardView::Glob { pattern: pattern@ }),
        c matches ToolCall::Unknown { name, input } ==> {
            &&& c@->Unknown_name == name@
            &&& c@->Unknown_input is Some <==> input is Some
            &&& input matches Some(value) ==> c@->Unknown_input == Some(value@)
        },
{
}

/// A receipt stands for what it records: the options one by one, the selection where there was
/// one, and the reasons in order.
pub proof fn law_receipts_stand_for_what_they_record(e: DecisionEvent, i: int)
    ensures
        e@.id == e.id@ && e@.revision == e.revision && e@.at_ms == e.at_ms,
        e@.backend == e.backend && e@.stage == e.stage && e@.validation == e.validation,
        e@.candidates.len() == e.candidates@.len(),
        0 <= i < e.candidates@.len() ==> e@.candidates[i] == (
            e.candidates@[i].id@,
            e.candidates@[i].summary@,
        ),
        e@.selected is Some <==> e.result is Selected,
        e.result matches DecisionResult::Selected { candidate_id } ==> e@.selected == Some(
            candidate_id@,
        ),
        e@.confidence_bits == e.confidence_bits,
        e@.selected_probability_bits == e.selected_probability_bits,
        e@.fit_bits == e.fit_bits,
        e@.fallbacks == views(e.fallbacks@),
        e@.observed_outcome == opt(e.observed_outcome),
{
}

/// Events are told one for one.
pub proof fn law_events_are_listed_one_for_one(s: Seq<AgentEvent>, i: int)
    ensures
        agent_views(s).len() == s.len(),
        0 <= i < s.len() ==> agent_views(s)[i] == s[i]@,
{
}

}
