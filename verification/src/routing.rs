//! Routing of a new task to a model of the 0G catalog. The host supplies the routes; a
//! selector answers with the id of one of them, and the host checks the answer before it
//! counts.

use crate::bridge::{flag_option, option_flag, option_text, text_option};
use crate::og::{
    capability_list, capability_text, eligible_views, is_ranked, law_the_router_is_told_the_policy,
    lemma_first_fact, lemma_next_fact, lemma_semicolons, og_views, provider_strategy, rank,
    strategy, trust_header, trust_name, verify_tee, Objective, OgModel, OgView, TrustMode,
};
use crate::proto::{
    candidate_views, clone_event, DecisionBackend, DecisionCandidate, DecisionEvent,
    DecisionResult, DecisionStage, DecisionValidation, HarnessId, ReasoningLevel, ReceiptView,
    RunRequest,
};
use crate::json::{Json, JsonView};
use crate::text::{
    between, clone_opt, decimal, has_prefix, head, joined, law_a_prefix_has_a_rest,
    law_the_head_is_the_first_characters, law_what_stands_between, opt, str_eq, str_starts_with,
    take_chars, to_decimal,
};
use vstd::prelude::*;
use vstd::string::*;

verus! {

/// The most routes that are put before a selector.
pub const MAX_ROUTES: usize = 16;

/// The most routes that fit the local selector.
pub const MAX_LOCAL_ROUTES: usize = 8;

/// How long a prepared route stays valid, in milliseconds.
pub const ROUTE_TTL_MS: i64 = 45_000;

/// The double 0.75 by its bits.
pub const CONFIDENCE_BITS: u64 = 0x3FE8_0000_0000_0000;

/// Where a task goes.
#[derive(Debug, PartialEq)]
pub struct RouteChoice {
    pub harness: HarnessId,
    pub model: Option<String>,
    /// `default`, `latency`, or `price`.
    pub provider_strategy: String,
    /// `standard`, `verified`, or `private`.
    pub trust_mode: String,
    pub verify_tee: bool,
}

/// The mathematical value of a [`RouteChoice`].
pub struct PickView {
    pub harness: HarnessId,
    pub model: Option<Seq<char>>,
    pub provider_strategy: Seq<char>,
    pub trust_mode: Seq<char>,
    pub verify_tee: bool,
}

impl View for RouteChoice {
    type V = PickView;

    open spec fn view(&self) -> PickView {
        PickView {
            harness: self.harness,
            model: opt(self.model),
            provider_strategy: self.provider_strategy@,
            trust_mode: self.trust_mode@,
            verify_tee: self.verify_tee,
        }
    }
}

/// A copy of a choice.
pub fn clone_choice(choice: &RouteChoice) -> (r: RouteChoice)
    ensures
        r@ == choice@,
{
    RouteChoice {
        harness: choice.harness,
        model: clone_opt(&choice.model),
        provider_strategy: choice.provider_strategy.clone(),
        trust_mode: choice.trust_mode.clone(),
        verify_tee: choice.verify_tee,
    }
}

/// The route of a task, and the receipt of the decision. There is a receipt only where a
/// selector was asked.
#[derive(Debug, PartialEq)]
pub struct RouteDecision {
    pub choice: Option<RouteChoice>,
    pub event: Option<DecisionEvent>,
}

/// The mathematical value of a [`RouteDecision`].
pub struct VerdictView {
    pub choice: Option<PickView>,
    pub event: Option<ReceiptView>,
}

impl View for RouteDecision {
    type V = VerdictView;

    open spec fn view(&self) -> VerdictView {
        VerdictView {
            choice: match self.choice {
                Some(c) => Some(c@),
                None => None,
            },
            event: match self.event {
                Some(e) => Some(e@),
                None => None,
            },
        }
    }
}

/// No route and no receipt.
pub open spec fn skipped_view() -> VerdictView {
    VerdictView { choice: None, event: None }
}

impl RouteDecision {
    /// No route and no receipt.
    pub fn skipped() -> (r: Self)
        ensures
            r@ == skipped_view(),
    {
        RouteDecision { choice: None, event: None }
    }
}

/// One route to put before a selector. The confidence is a double by its bits.
#[derive(Debug, PartialEq)]
pub struct PreparedRoute {
    pub id: String,
    pub choice: RouteChoice,
    pub description: String,
    pub provider_name: String,
    pub model_label: String,
    pub reasoning_levels: Vec<ReasoningLevel>,
    pub confidence_bits: u64,
}

/// The mathematical value of a [`PreparedRoute`].
pub struct RouteView {
    pub id: Seq<char>,
    pub choice: PickView,
    pub description: Seq<char>,
    pub provider_name: Seq<char>,
    pub model_label: Seq<char>,
    pub reasoning_levels: Seq<ReasoningLevel>,
    pub confidence_bits: u64,
}

impl View for PreparedRoute {
    type V = RouteView;

    open spec fn view(&self) -> RouteView {
        RouteView {
            id: self.id@,
            choice: self.choice@,
            description: self.description@,
            provider_name: self.provider_name@,
            model_label: self.model_label@,
            reasoning_levels: self.reasoning_levels@,
            confidence_bits: self.confidence_bits,
        }
    }
}

/// The mathematical values of a list of routes.
pub open spec fn route_views(s: Seq<PreparedRoute>) -> Seq<RouteView> {
    s.map_values(|r: PreparedRoute| r@)
}

/// Who is asked. `L` is the local selector, `P` where the remote selector's key lies.
pub enum RouteBackend<L, P> {
    LocalLaya(L),
    TypeSafeJev(P),
    /// The host takes the best-ranked route itself.
    HostPolicy,
}

/// Whether an option may stand in a request that is routed: the others belong to the provider
/// that was selected first, and are never taken to another.
pub open spec fn routable(key: Seq<char>) -> bool {
    key == "jevAuto"@ || key == "jevRouted"@ || has_prefix(key, "og"@)
}

/// Whether a request asks to be routed: it is marked, not routed yet, and carries no option of
/// another provider.
pub open spec fn asks_for_route(options: Map<Seq<char>, Json>) -> bool {
    &&& option_flag(options, "jevAuto"@) == Some(true)
    &&& option_flag(options, "jevRouted"@) != Some(true)
    &&& forall|key: Seq<char>| #[trigger] options.contains_key(key) ==> routable(key)
}

fn is_true(flag: Option<bool>) -> (r: bool)
    ensures
        r == (flag == Some(true)),
{
    match flag {
        Some(flag) => flag,
        None => false,
    }
}

/// Whether a request asks to be routed.
pub fn requested(request: &RunRequest) -> (r: bool)
    ensures
        r == asks_for_route(request.model_options@),
{
    if !is_true(flag_option(&request.model_options, "jevAuto")) {
        return false;
    }
    if is_true(flag_option(&request.model_options, "jevRouted")) {
        return false;
    }
    let keys = request.model_options.keys();
    let mut i: usize = 0;
    while i < keys.len()
        invariant
            i <= keys@.len(),
            forall|k: int|
                0 <= k < keys@.len() ==> request.model_options@.contains_key((#[trigger] keys@[k])@),
            forall|k: int| 0 <= k < i ==> routable((#[trigger] keys@[k])@),
        decreases keys@.len() - i,
    {
        let key = keys[i].as_str();
        if !(str_eq(key, "jevAuto") || str_eq(key, "jevRouted") || str_starts_with(key, "og")) {
            assert(!routable(keys@[i as int]@));
            assert(request.model_options@.contains_key(keys@[i as int]@));
            return false;
        }
        i = i + 1;
    }
    assert forall|key: Seq<char>| #[trigger]
        request.model_options@.contains_key(key) implies routable(key) by {
        let k = choose|k: int| 0 <= k < keys@.len() && (#[trigger] keys@[k])@ == key;
        assert(routable(keys@[k]@));
    }
    true
}

/// Whether a model offers the effort that a request asks for.
pub fn reasoning_compatible(requested: Option<ReasoningLevel>, offered: &Vec<ReasoningLevel>) -> (r:
    bool)
    ensures
        r == (requested matches Some(level) ==> offered@.contains(level)),
{
    let level = match requested {
        Some(level) => level,
        None => {
            return true;
        },
    };
    let mut i: usize = 0;
    while i < offered.len()
        invariant
            i <= offered@.len(),
            requested == Some(level),
            forall|k: int| 0 <= k < i ==> #[trigger] offered@[k] != level,
        decreases offered@.len() - i,
    {
        if offered[i] == level {
            assert(offered@[i as int] == level);
            return true;
        }
        i = i + 1;
    }
    false
}

/// The objective of a request: its own, or the environment's.
pub open spec fn objective_asked(options: Map<Seq<char>, Json>, env: Objective) -> Objective {
    let asked = option_text(options, "ogObjective"@);
    if asked == Some("cost"@) {
        Objective::Cost
    } else if asked == Some("speed"@) {
        Objective::Speed
    } else if asked == Some("quality"@) {
        Objective::Quality
    } else {
        env
    }
}

/// The objective of a request.
pub fn objective_of(request: &RunRequest, env: Objective) -> (r: Objective)
    ensures
        r == objective_asked(request.model_options@, env),
{
    match text_option(&request.model_options, "ogObjective") {
        Some(asked) => if str_eq(asked.as_str(), "cost") {
            Objective::Cost
        } else if str_eq(asked.as_str(), "speed") {
            Objective::Speed
        } else if str_eq(asked.as_str(), "quality") {
            Objective::Quality
        } else {
            env
        },
        None => env,
    }
}

/// The trust mode of a request: its own, or the environment's.
pub open spec fn trust_asked(options: Map<Seq<char>, Json>, env: TrustMode) -> TrustMode {
    let asked = option_text(options, "ogTrust"@);
    if asked == Some("private"@) {
        TrustMode::Private
    } else if asked == Some("verified"@) {
        TrustMode::Verified
    } else if asked == Some("standard"@) {
        TrustMode::Standard
    } else {
        env
    }
}

/// The trust mode of a request.
pub fn trust_of(request: &RunRequest, env: TrustMode) -> (r: TrustMode)
    ensures
        r == trust_asked(request.model_options@, env),
{
    match text_option(&request.model_options, "ogTrust") {
        Some(asked) => if str_eq(asked.as_str(), "private") {
            TrustMode::Private
        } else if str_eq(asked.as_str(), "verified") {
            TrustMode::Verified
        } else if str_eq(asked.as_str(), "standard") {
            TrustMode::Standard
        } else {
            env
        },
        None => env,
    }
}

/// A model's facts as a selector reads them.
pub open spec fn route_text(m: OgView) -> Seq<char> {
    m.name + "; capabilities="@ + capability_list(m.capabilities) + "; context="@ + decimal(
        m.context_length as int,
    ) + "; providers="@ + decimal(m.provider_count as int) + "; trust="@ + m.verifiability
        + "; promptPrice="@ + m.prompt_price
}

fn route_description(model: &OgModel) -> (r: String)
    ensures
        r@ == route_text(model@),
{
    let mut s = model.name.clone();
    s.append("; capabilities=");
    s.append(capability_text(&model.capabilities).as_str());
    s.append("; context=");
    s.append(to_decimal(model.context_length).as_str());
    s.append("; providers=");
    s.append(to_decimal(model.provider_count as u64).as_str());
    s.append("; trust=");
    s.append(model.verifiability.as_str());
    s.append("; promptPrice=");
    s.append(model.prompt_price.as_str());
    s
}

/// The route to one model of the catalog.
pub open spec fn route_to(m: OgView, objective: Objective, trust: TrustMode) -> RouteView {
    RouteView {
        id: m.id,
        choice: PickView {
            harness: HarnessId::Og,
            model: Some(m.id),
            provider_strategy: strategy(objective),
            trust_mode: trust_name(trust),
            verify_tee: trust != TrustMode::Standard,
        },
        description: route_text(m),
        provider_name: "0G"@,
        model_label: m.name,
        reasoning_levels: seq![ReasoningLevel::Medium],
        confidence_bits: CONFIDENCE_BITS,
    }
}

fn route(model: &OgModel, objective: Objective, trust: TrustMode) -> (r: PreparedRoute)
    ensures
        r@ == route_to(model@, objective, trust),
{
    let levels = vec![ReasoningLevel::Medium];
    assert(levels@ =~= seq![ReasoningLevel::Medium]);
    PreparedRoute {
        id: model.id.clone(),
        choice: RouteChoice {
            harness: HarnessId::Og,
            model: Some(model.id.clone()),
            provider_strategy: provider_strategy(objective).to_owned(),
            trust_mode: trust_header(trust),
            verify_tee: verify_tee(trust),
        },
        description: route_description(model),
        provider_name: "0G".to_owned(),
        model_label: model.name.clone(),
        reasoning_levels: levels,
        confidence_bits: CONFIDENCE_BITS,
    }
}

/// The routes to the first models of a ranking, at most [`MAX_ROUTES`].
pub open spec fn routes_to(ranked: Seq<OgView>, objective: Objective, trust: TrustMode) -> Seq<
    RouteView,
> {
    Seq::new(
        if ranked.len() < MAX_ROUTES {
            ranked.len()
        } else {
            MAX_ROUTES as nat
        },
        |i: int| route_to(ranked[i], objective, trust),
    )
}

/// The routes to the first models of a ranking.
pub fn routes_of(ranked: &Vec<OgModel>, objective: Objective, trust: TrustMode) -> (r: Vec<
    PreparedRoute,
>)
    ensures
        route_views(r@) == routes_to(og_views(ranked@), objective, trust),
{
    let mut out: Vec<PreparedRoute> = Vec::new();
    let mut i: usize = 0;
    while i < ranked.len() && i < MAX_ROUTES
        invariant
            i <= ranked@.len(),
            i <= MAX_ROUTES,
            out@.len() == i,
            forall|k: int|
                0 <= k < i ==> (#[trigger] out@[k])@ == route_to(ranked@[k]@, objective, trust),
        decreases ranked@.len() - i,
    {
        out.push(route(&ranked[i], objective, trust));
        i = i + 1;
    }
    assert(route_views(out@) =~= routes_to(og_views(ranked@), objective, trust));
    out
}

/// The routes of a request through a catalog. The costs are those of [`rank`].
pub fn prepare_routes(
    request: &RunRequest,
    catalog: &Vec<OgModel>,
    costs: &Vec<i64>,
    env_objective: Objective,
    env_trust: TrustMode,
) -> (r: Vec<PreparedRoute>)
    requires
        objective_asked(request.model_options@, env_objective) == Objective::Cost ==> costs@.len()
            == eligible_views(
            og_views(catalog@),
            trust_asked(request.model_options@, env_trust),
        ).len(),
    ensures
        is_prepared(
            route_views(r@),
            *request,
            og_views(catalog@),
            costs@,
            env_objective,
            env_trust,
        ),
{
    let objective = objective_of(request, env_objective);
    let trust = trust_of(request, env_trust);
    let ranked = rank(request.prompt.as_str(), catalog, objective, trust, costs);
    let out = routes_of(&ranked, objective, trust);
    assert(is_ranked(
        og_views(ranked@),
        request.prompt@,
        og_views(catalog@),
        objective,
        trust,
        costs@,
    ));
    out
}

/// `routes` are the routes to the first models of the request's ranking of the catalog.
pub open spec fn is_prepared(
    routes: Seq<RouteView>,
    request: RunRequest,
    catalog: Seq<OgView>,
    costs: Seq<i64>,
    env_objective: Objective,
    env_trust: TrustMode,
) -> bool {
    let objective = objective_asked(request.model_options@, env_objective);
    let trust = trust_asked(request.model_options@, env_trust);
    exists|ranked: Seq<OgView>| #[trigger]
        is_ranked(ranked, request.prompt@, catalog, objective, trust, costs) && routes == routes_to(
            ranked,
            objective,
            trust,
        )
}

/// What of a route is fingerprinted: a change of any of these makes a selection stale.
#[derive(Debug, PartialEq)]
pub struct RouteFacts {
    pub id: String,
    pub description: String,
    pub harness: HarnessId,
    pub model: Option<String>,
    pub reasoning_levels: Vec<ReasoningLevel>,
}

/// The mathematical value of a [`RouteFacts`].
pub struct FactsView {
    pub id: Seq<char>,
    pub description: Seq<char>,
    pub harness: HarnessId,
    pub model: Option<Seq<char>>,
    pub reasoning_levels: Seq<ReasoningLevel>,
}

impl View for RouteFacts {
    type V = FactsView;

    open spec fn view(&self) -> FactsView {
        FactsView {
            id: self.id@,
            description: self.description@,
            harness: self.harness,
            model: opt(self.model),
            reasoning_levels: self.reasoning_levels@,
        }
    }
}

/// What of a route is fingerprinted.
pub open spec fn facts_of(r: RouteView) -> FactsView {
    FactsView {
        id: r.id,
        description: r.description,
        harness: r.choice.harness,
        model: r.choice.model,
        reasoning_levels: r.reasoning_levels,
    }
}

fn copy_levels(levels: &Vec<ReasoningLevel>) -> (r: Vec<ReasoningLevel>)
    ensures
        r@ == levels@,
{
    let mut out: Vec<ReasoningLevel> = Vec::new();
    let mut i: usize = 0;
    while i < levels.len()
        invariant
            i <= levels@.len(),
            out@ == levels@.take(i as int),
        decreases levels@.len() - i,
    {
        out.push(levels[i]);
        i = i + 1;
        assert(out@ =~= levels@.take(i as int));
    }
    assert(levels@.take(i as int) =~= levels@);
    out
}

/// What of the routes goes into their fingerprint, route by route.
pub fn route_fingerprint(routes: &Vec<PreparedRoute>) -> (r: Vec<RouteFacts>)
    ensures
        r@.len() == routes@.len(),
        forall|i: int| 0 <= i < r@.len() ==> (#[trigger] r@[i])@ == facts_of(routes@[i]@),
{
    let mut out: Vec<RouteFacts> = Vec::new();
    let mut i: usize = 0;
    while i < routes.len()
        invariant
            i <= routes@.len(),
            out@.len() == i,
            forall|k: int| 0 <= k < i ==> (#[trigger] out@[k])@ == facts_of(routes@[k]@),
        decreases routes@.len() - i,
    {
        let route = &routes[i];
        out.push(
            RouteFacts {
                id: route.id.clone(),
                description: route.description.clone(),
                harness: route.choice.harness,
                model: clone_opt(&route.choice.model),
                reasoning_levels: copy_levels(&route.reasoning_levels),
            },
        );
        i = i + 1;
    }
    out
}

/// One route as the host's workflow checks it. It has no preconditions of its own.
pub struct PreparedAction {
    pub id: String,
    pub description: String,
    pub payload: RouteChoice,
    pub prepared_at_revision: u64,
    pub read_set_fingerprint: String,
    pub expires_at_ms: i64,
}

/// The moment at which a route that was prepared at `now_ms` expires.
pub open spec fn expiry(now_ms: i64) -> i64 {
    if now_ms > i64::MAX - ROUTE_TTL_MS {
        i64::MAX
    } else {
        (now_ms + ROUTE_TTL_MS) as i64
    }
}

/// The routes as the workflow checks them, all against one fingerprint.
pub fn plan_actions(
    prepared: &Vec<PreparedRoute>,
    revision: u64,
    fingerprint: &str,
    now_ms: i64,
) -> (r: Vec<PreparedAction>)
    ensures
        r@.len() == prepared@.len(),
        forall|i: int|
            0 <= i < r@.len() ==> {
                &&& (#[trigger] r@[i]).id@ == prepared@[i].id@
                &&& r@[i].description@ == prepared@[i].description@
                &&& r@[i].payload@ == prepared@[i].choice@
                &&& r@[i].prepared_at_revision == revision
                &&& r@[i].read_set_fingerprint@ == fingerprint@
                &&& r@[i].expires_at_ms == expiry(now_ms)
            },
{
    let expires_at_ms: i64 = if now_ms > i64::MAX - ROUTE_TTL_MS {
        i64::MAX
    } else {
        now_ms + ROUTE_TTL_MS
    };
    let mut out: Vec<PreparedAction> = Vec::new();
    let mut i: usize = 0;
    while i < prepared.len()
        invariant
            i <= prepared@.len(),
            out@.len() == i,
            expires_at_ms == expiry(now_ms),
            forall|k: int|
                0 <= k < i ==> {
                    &&& (#[trigger] out@[k]).id@ == prepared@[k].id@
                    &&& out@[k].description@ == prepared@[k].description@
                    &&& out@[k].payload@ == prepared@[k].choice@
                    &&& out@[k].prepared_at_revision == revision
                    &&& out@[k].read_set_fingerprint@ == fingerprint@
                    &&& out@[k].expires_at_ms == expiry(now_ms)
                },
        decreases prepared@.len() - i,
    {
        let route = &prepared[i];
        out.push(
            PreparedAction {
                id: route.id.clone(),
                description: route.description.clone(),
                payload: clone_choice(&route.choice),
                prepared_at_revision: revision,
                read_set_fingerprint: fingerprint.to_owned(),
                expires_at_ms,
            },
        );
        i = i + 1;
    }
    out
}

/// The routes that fit the local selector: the first [`MAX_LOCAL_ROUTES`].
pub open spec fn local_views(prepared: Seq<RouteView>) -> Seq<RouteView> {
    if prepared.len() < MAX_LOCAL_ROUTES {
        prepared
    } else {
        prepared.take(MAX_LOCAL_ROUTES as int)
    }
}

/// The routes that fit the local selector.
pub fn compact_local_routes(prepared: &Vec<PreparedRoute>) -> (r: Vec<&PreparedRoute>)
    ensures
        r@.map_values(|route: &PreparedRoute| route@) == local_views(route_views(prepared@)),
{
    let mut out: Vec<&PreparedRoute> = Vec::new();
    let mut i: usize = 0;
    while i < prepared.len() && i < MAX_LOCAL_ROUTES
        invariant
            i <= prepared@.len(),
            i <= MAX_LOCAL_ROUTES,
            out@.len() == i,
            forall|k: int| 0 <= k < i ==> *(#[trigger] out@[k]) == prepared@[k],
        decreases prepared@.len() - i,
    {
        out.push(&prepared[i]);
        i = i + 1;
    }
    assert(out@.map_values(|route: &PreparedRoute| route@) =~= local_views(
        route_views(prepared@),
    ));
    out
}

/// A route in a few words.
pub open spec fn label_of(r: RouteView) -> Seq<char> {
    r.provider_name + ": "@ + r.model_label
}

fn route_label(route: &PreparedRoute) -> (r: String)
    ensures
        r@ == label_of(route@),
{
    let mut s = route.provider_name.clone();
    s.append(": ");
    s.append(route.model_label.as_str());
    s
}

/// What a selector is asked: the task, what it is to know, and the options by id and
/// description.
pub struct SelectionInput {
    pub task: String,
    pub context: String,
    pub state_version: u64,
    pub candidates: Vec<DecisionCandidate>,
}

/// The mathematical value of a [`SelectionInput`].
pub struct QuestionView {
    pub task: Seq<char>,
    pub context: Seq<char>,
    pub state_version: u64,
    pub candidates: Seq<(Seq<char>, Seq<char>)>,
}

impl View for SelectionInput {
    type V = QuestionView;

    open spec fn view(&self) -> QuestionView {
        QuestionView {
            task: self.task@,
            context: self.context@,
            state_version: self.state_version,
            candidates: candidate_views(self.candidates@),
        }
    }
}

/// The options that a decision's receipt names.
pub open spec fn considered_of<L, P>(backend: RouteBackend<L, P>, prepared: Seq<RouteView>) -> Seq<
    (Seq<char>, Seq<char>),
> {
    match backend {
        RouteBackend::LocalLaya(_) => local_views(prepared).map_values(
            |r: RouteView| (r.id, label_of(r)),
        ),
        _ => prepared.map_values(|r: RouteView| (r.id, r.description)),
    }
}

/// What the selector is asked. The host policy asks nobody.
pub open spec fn question_of<L, P>(
    backend: RouteBackend<L, P>,
    request: RunRequest,
    prepared: Seq<RouteView>,
    revision: u64,
) -> Option<QuestionView> {
    match backend {
        RouteBackend::TypeSafeJev(_) => Some(
            QuestionView {
                task: head(request.prompt@, 6_000),
                context: "Coding task. Sandbox: "@ + request.sandbox@ + ". Image attachments: "@
                    + decimal(request.attachments as int)
                    + ". Select one 0G model id. The host sets provider strategy and 0G Router chooses the provider."@,
                state_version: revision,
                candidates: prepared.map_values(|r: RouteView| (r.id, r.description)),
            },
        ),
        RouteBackend::LocalLaya(_) => Some(
            QuestionView {
                task: head(request.prompt@, 900),
                context: "Choose a 0G model. Sandbox "@ + request.sandbox@ + "; "@ + decimal(
                    request.attachments as int,
                ) + " attachments. Host enforces permissions."@,
                state_version: revision,
                candidates: local_views(prepared).map_values(
                    |r: RouteView| (r.id, head(label_of(r), 90)),
                ),
            },
        ),
        RouteBackend::HostPolicy => None,
    }
}

fn described(prepared: &Vec<PreparedRoute>) -> (r: Vec<DecisionCandidate>)
    ensures
        candidate_views(r@) == route_views(prepared@).map_values(
            |r: RouteView| (r.id, r.description),
        ),
{
    let mut out: Vec<DecisionCandidate> = Vec::new();
    let mut i: usize = 0;
    while i < prepared.len()
        invariant
            i <= prepared@.len(),
            out@.len() == i,
            forall|k: int|
                0 <= k < i ==> (#[trigger] out@[k])@ == (
                    prepared@[k].id@,
                    prepared@[k].description@,
                ),
        decreases prepared@.len() - i,
    {
        out.push(
            DecisionCandidate {
                id: prepared[i].id.clone(),
                summary: prepared[i].description.clone(),
            },
        );
        i = i + 1;
    }
    assert(candidate_views(out@) =~= route_views(prepared@).map_values(
        |r: RouteView| (r.id, r.description),
    ));
    out
}

/// The options that a decision's receipt names.
pub fn considered<L, P>(backend: &RouteBackend<L, P>, prepared: &Vec<PreparedRoute>) -> (r: Vec<
    DecisionCandidate,
>)
    ensures
        candidate_views(r@) == considered_of(*backend, route_views(prepared@)),
{
    match backend {
        RouteBackend::LocalLaya(_) => {
            let local = compact_local_routes(prepared);
            let ghost few = local_views(route_views(prepared@));
            let mut out: Vec<DecisionCandidate> = Vec::new();
            let mut i: usize = 0;
            while i < local.len()
                invariant
                    i <= local@.len(),
                    few == local@.map_values(|route: &PreparedRoute| route@),
                    out@.len() == i,
                    forall|k: int|
                        0 <= k < i ==> (#[trigger] out@[k])@ == (few[k].id, label_of(few[k])),
                decreases local@.len() - i,
            {
                assert(few[i as int] == local@[i as int]@);
                out.push(
                    DecisionCandidate { id: local[i].id.clone(), summary: route_label(local[i]) },
                );
                i = i + 1;
            }
            assert(candidate_views(out@) =~= considered_of(*backend, route_views(prepared@)));
            out
        },
        _ => described(prepared),
    }
}

fn local_candidates(prepared: &Vec<PreparedRoute>) -> (r: Vec<DecisionCandidate>)
    ensures
        candidate_views(r@) == local_views(route_views(prepared@)).map_values(
            |r: RouteView| (r.id, head(label_of(r), 90)),
        ),
{
    let local = compact_local_routes(prepared);
    let ghost few = local_views(route_views(prepared@));
    let mut out: Vec<DecisionCandidate> = Vec::new();
    let mut i: usize = 0;
    while i < local.len()
        invariant
            i <= local@.len(),
            few == local@.map_values(|route: &PreparedRoute| route@),
            out@.len() == i,
            forall|k: int|
                0 <= k < i ==> (#[trigger] out@[k])@ == (few[k].id, head(label_of(few[k]), 90)),
        decreases local@.len() - i,
    {
        assert(few[i as int] == local@[i as int]@);
        let label = route_label(local[i]);
        out.push(
            DecisionCandidate { id: local[i].id.clone(), summary: take_chars(label.as_str(), 90) },
        );
        i = i + 1;
    }
    assert(candidate_views(out@) =~= local_views(route_views(prepared@)).map_values(
        |r: RouteView| (r.id, head(label_of(r), 90)),
    ));
    out
}

/// What the selector is asked.
pub fn question<L, P>(
    backend: &RouteBackend<L, P>,
    request: &RunRequest,
    prepared: &Vec<PreparedRoute>,
    revision: u64,
) -> (r: Option<SelectionInput>)
    ensures
        (match r {
            Some(q) => Some(q@),
            None => None,
        }) == question_of(*backend, *request, route_views(prepared@), revision),
{
    match backend {
        RouteBackend::TypeSafeJev(_) => {
            let mut context = "Coding task. Sandbox: ".to_owned();
            context.append(request.sandbox.as_str());
            context.append(". Image attachments: ");
            context.append(to_decimal(request.attachments).as_str());
            context.append(
                ". Select one 0G model id. The host sets provider strategy and 0G Router chooses the provider.",
            );
            Some(
                SelectionInput {
                    task: take_chars(request.prompt.as_str(), 6_000),
                    context,
                    state_version: revision,
                    candidates: described(prepared),
                },
            )
        },
        RouteBackend::LocalLaya(_) => {
            let mut context = "Choose a 0G model. Sandbox ".to_owned();
            context.append(request.sandbox.as_str());
            context.append("; ");
            context.append(to_decimal(request.attachments).as_str());
            context.append(" attachments. Host enforces permissions.");
            Some(
                SelectionInput {
                    task: take_chars(request.prompt.as_str(), 900),
                    context,
                    state_version: revision,
                    candidates: local_candidates(prepared),
                },
            )
        },
        RouteBackend::HostPolicy => None,
    }
}

/// A selector's answer. The likelihoods are doubles by their bits.
#[derive(Debug, PartialEq)]
pub struct SelectorReply {
    pub selected_id: Option<String>,
    pub fallback: Option<String>,
    pub confidence_bits: Option<u64>,
    pub selected_probability_bits: Option<u64>,
    pub fit_bits: Option<u64>,
}

/// The host's own answer: the first route.
pub open spec fn host_answer(prepared: Seq<PreparedRoute>) -> SelectorReply {
    SelectorReply {
        selected_id: if prepared.len() > 0 {
            Some(prepared[0].id)
        } else {
            None
        },
        fallback: None,
        confidence_bits: if prepared.len() > 0 {
            Some(prepared[0].confidence_bits)
        } else {
            None
        },
        selected_probability_bits: None,
        fit_bits: None,
    }
}

/// The host's own answer: the first route.
pub fn host_reply(prepared: &Vec<PreparedRoute>) -> (r: SelectorReply)
    ensures
        r == host_answer(prepared@),
{
    let (selected_id, confidence_bits) = if prepared.len() > 0 {
        (Some(prepared[0].id.clone()), Some(prepared[0].confidence_bits))
    } else {
        (None, None)
    };
    SelectorReply {
        selected_id,
        fallback: None,
        confidence_bits,
        selected_probability_bits: None,
        fit_bits: None,
    }
}

/// Who a backend is in a receipt.
pub open spec fn backend_of<L, P>(backend: RouteBackend<L, P>) -> DecisionBackend {
    match backend {
        RouteBackend::LocalLaya(_) => DecisionBackend::Laya,
        RouteBackend::TypeSafeJev(_) => DecisionBackend::Jev,
        RouteBackend::HostPolicy => DecisionBackend::Host,
    }
}

/// The receipt of an answer, before the host checks it. The local selector states no fit, and
/// only it states the probability of its selection.
pub open spec fn receipt_view<L, P>(
    backend: RouteBackend<L, P>,
    prepared: Seq<RouteView>,
    reply: SelectorReply,
    revision: u64,
    at_ms: i64,
) -> ReceiptView {
    ReceiptView {
        id: "intake-"@ + decimal(revision as int),
        revision,
        backend: backend_of(backend),
        stage: DecisionStage::Intake,
        candidates: considered_of(backend, prepared),
        selected: opt(reply.selected_id),
        validation: DecisionValidation::Accepted,
        at_ms,
        confidence_bits: reply.confidence_bits,
        selected_probability_bits: match backend {
            RouteBackend::LocalLaya(_) => reply.selected_probability_bits,
            _ => None,
        },
        fit_bits: match backend {
            RouteBackend::TypeSafeJev(_) => reply.fit_bits,
            _ => None,
        },
        fallbacks: Seq::empty(),
        observed_outcome: None,
    }
}

/// The receipt of an answer, before the host checks it.
pub fn receipt<L, P>(
    backend: &RouteBackend<L, P>,
    prepared: &Vec<PreparedRoute>,
    reply: &SelectorReply,
    revision: u64,
    at_ms: i64,
) -> (r: DecisionEvent)
    ensures
        r@ == receipt_view(*backend, route_views(prepared@), *reply, revision, at_ms),
{
    let mut id = "intake-".to_owned();
    id.append(to_decimal(revision).as_str());
    let (name, probability, fit) = match backend {
        RouteBackend::LocalLaya(_) => (
            DecisionBackend::Laya,
            reply.selected_probability_bits,
            None,
        ),
        RouteBackend::TypeSafeJev(_) => (DecisionBackend::Jev, None, reply.fit_bits),
        RouteBackend::HostPolicy => (DecisionBackend::Host, None, None),
    };
    let event = DecisionEvent {
        id,
        revision,
        backend: name,
        stage: DecisionStage::Intake,
        candidates: considered(backend, prepared),
        result: match &reply.selected_id {
            Some(candidate_id) => DecisionResult::Selected { candidate_id: candidate_id.clone() },
            None => DecisionResult::Abstained,
        },
        validation: DecisionValidation::Accepted,
        at_ms,
        confidence_bits: reply.confidence_bits,
        selected_probability_bits: probability,
        fit_bits: fit,
        fallbacks: Vec::new(),
        observed_outcome: None,
    };
    assert(event@.fallbacks =~= Seq::<Seq<char>>::empty());
    event
}

/// What a choice is reported as.
pub open spec fn scheduled_text(choice: PickView) -> Seq<char> {
    "0G scheduled model="@ + (match choice.model {
        Some(model) => model,
        None => "unknown"@,
    }) + " strategy="@ + choice.provider_strategy + " trust="@ + choice.trust_mode
}

/// The choice stands.
pub open spec fn scheduled_view(choice: PickView, event: ReceiptView) -> VerdictView {
    VerdictView {
        choice: Some(choice),
        event: Some(
            ReceiptView { observed_outcome: Some(scheduled_text(choice)), ..event },
        ),
    }
}

/// The choice stands.
pub fn scheduled(choice: RouteChoice, event: DecisionEvent) -> (r: RouteDecision)
    ensures
        r@ == scheduled_view(choice@, event@),
{
    let mut outcome = "0G scheduled model=".to_owned();
    match &choice.model {
        Some(model) => {
            outcome.append(model.as_str());
        },
        None => {
            outcome.append("unknown");
        },
    }
    outcome.append(" strategy=");
    outcome.append(choice.provider_strategy.as_str());
    outcome.append(" trust=");
    outcome.append(choice.trust_mode.as_str());
    let mut event = event;
    event.observed_outcome = Some(outcome);
    RouteDecision { choice: Some(choice), event: Some(event) }
}

/// The selector's answer does not count: the best-ranked route takes its place, and the
/// receipt says why.
pub open spec fn fallback_view(
    routes: Seq<RouteView>,
    event: ReceiptView,
    reason: Seq<char>,
) -> VerdictView {
    let noted = ReceiptView { fallbacks: event.fallbacks.push(reason), ..event };
    if routes.len() == 0 {
        VerdictView {
            choice: None,
            event: Some(ReceiptView { observed_outcome: Some("0G catalog empty"@), ..noted }),
        }
    } else {
        scheduled_view(
            routes[0].choice,
            ReceiptView {
                selected: Some(routes[0].id),
                validation: DecisionValidation::Accepted,
                ..noted
            },
        )
    }
}

/// The best-ranked route takes the place of an answer that does not count.
pub fn scored_fallback(routes: &Vec<PreparedRoute>, event: DecisionEvent, reason: &str) -> (r:
    RouteDecision)
    ensures
        r@ == fallback_view(route_views(routes@), event@, reason@),
{
    let mut event = event;
    let ghost before = event@;
    event.fallbacks.push(reason.to_owned());
    assert(event@.fallbacks =~= before.fallbacks.push(reason@));
    if routes.len() == 0 {
        event.observed_outcome = Some("0G catalog empty".to_owned());
        return RouteDecision { choice: None, event: Some(event) };
    }
    assert(route_views(routes@)[0] == routes@[0]@);
    event.result = DecisionResult::Selected { candidate_id: routes[0].id.clone() };
    event.validation = DecisionValidation::Accepted;
    scheduled(clone_choice(&routes[0].choice), event)
}

/// Why the host's workflow rejects a selection. `Other` stands for the reasons that routing
/// does not tell apart.
#[derive(Debug, Clone, Copy, PartialEq, Eq, Structural)]
pub enum RejectReason {
    Expired,
    Unauthorized,
    StaleReadSet,
    StaleRevision,
    Other,
}

/// What the host's workflow says of a selection.
#[derive(Debug, Clone, Copy, PartialEq, Eq, Structural)]
pub struct Validation {
    pub accepted: bool,
    pub rejection: Option<RejectReason>,
}

/// What a rejection is in a receipt.
pub open spec fn rejected_as(rejection: Option<RejectReason>) -> DecisionValidation {
    match rejection {
        Some(RejectReason::Expired) => DecisionValidation::Expired,
        Some(RejectReason::Unauthorized) => DecisionValidation::Unauthorized,
        Some(RejectReason::StaleReadSet) => DecisionValidation::Stale,
        Some(RejectReason::StaleRevision) => DecisionValidation::Stale,
        _ => DecisionValidation::Rejected,
    }
}

/// What a rejection is in a receipt.
pub fn rejection_receipt(rejection: Option<RejectReason>) -> (r: DecisionValidation)
    ensures
        r == rejected_as(rejection),
{
    match rejection {
        Some(RejectReason::Expired) => DecisionValidation::Expired,
        Some(RejectReason::Unauthorized) => DecisionValidation::Unauthorized,
        Some(RejectReason::StaleReadSet) => DecisionValidation::Stale,
        Some(RejectReason::StaleRevision) => DecisionValidation::Stale,
        _ => DecisionValidation::Rejected,
    }
}

/// The place of the first route with the id.
pub open spec fn place_of(routes: Seq<RouteView>, id: Seq<char>) -> Option<int>
    decreases routes.len(),
{
    if routes.len() == 0 {
        None
    } else if place_of(routes.drop_last(), id) is Some {
        place_of(routes.drop_last(), id)
    } else if routes.last().id == id {
        Some(routes.len() - 1)
    } else {
        None
    }
}

/// The place of the first route with the id. On the routes that a selection is checked
/// against, it says whether the route is still there.
pub fn find_route(routes: &Vec<PreparedRoute>, id: &str) -> (r: Option<usize>)
    ensures
        match place_of(route_views(routes@), id@) {
            Some(k) => r matches Some(n) && n == k && n < routes@.len(),
            None => r is None,
        },
{
    let ghost all = route_views(routes@);
    let mut found: Option<usize> = None;
    let mut i: usize = 0;
    assert(all.take(0) =~= Seq::<RouteView>::empty());
    while i < routes.len()
        invariant
            i <= routes@.len(),
            all == route_views(routes@),
            match place_of(all.take(i as int), id@) {
                Some(k) => found matches Some(n) && n == k && n < routes@.len(),
                None => found is None,
            },
        decreases routes@.len() - i,
    {
        assert(all.take(i + 1).drop_last() =~= all.take(i as int));
        assert(all.take(i + 1).last() == routes@[i as int]@);
        if found.is_none() && str_eq(routes[i].id.as_str(), id) {
            found = Some(i);
        }
        i = i + 1;
    }
    assert(all.take(i as int) =~= all);
    found
}

/// What the host found out on the way to a decision. Facts that the decision does not come to
/// need not be there.
pub struct HostFacts {
    /// The fingerprint of the prepared routes, where it could be taken.
    pub fingerprint: Option<String>,
    /// Whether the workflow finds each prepared route eligible.
    pub eligible: Vec<bool>,
    /// The selector's answer, or the host's own under its policy; none where there is no selector
    /// to ask.
    pub reply: Option<SelectorReply>,
    /// The answer's receipt, within the host's bounds.
    pub receipt: DecisionEvent,
    /// The routes, prepared once more after the answer.
    pub live: Vec<PreparedRoute>,
    /// The fingerprint of those, where it could be taken.
    pub live_fingerprint: Option<String>,
    /// What the workflow says of the selection against those.
    pub validation: Validation,
}

/// Every flag is set.
pub open spec fn all_set(flags: Seq<bool>) -> bool {
    forall|i: int| 0 <= i < flags.len() ==> #[trigger] flags[i]
}

/// Whether every flag is set.
pub fn all_eligible(flags: &Vec<bool>) -> (r: bool)
    ensures
        r == all_set(flags@),
{
    let mut i: usize = 0;
    while i < flags.len()
        invariant
            i <= flags@.len(),
            forall|k: int| 0 <= k < i ==> #[trigger] flags@[k],
        decreases flags@.len() - i,
    {
        if !flags[i] {
            assert(!flags@[i as int]);
            return false;
        }
        i = i + 1;
    }
    true
}

/// The host comes to ask a selector: the request asks for a route, there are routes, and the
/// workflow finds every one of them eligible.
pub open spec fn comes_to_ask(
    request: RunRequest,
    prepared: Seq<RouteView>,
    facts: HostFacts,
) -> bool {
    &&& asks_for_route(request.model_options@)
    &&& prepared.len() > 0
    &&& facts.fingerprint is Some
    &&& facts.eligible@.len() == prepared.len()
    &&& all_set(facts.eligible@)
}

/// The receipt with the selector's own reason for falling back.
pub open spec fn noted_receipt(receipt: ReceiptView, fallback: Option<Seq<char>>) -> ReceiptView {
    match fallback {
        Some(reason) => ReceiptView { fallbacks: receipt.fallbacks.push(reason), ..receipt },
        None => receipt,
    }
}

/// What becomes of an answer.
pub open spec fn verdict_of(prepared: Seq<RouteView>, facts: HostFacts) -> VerdictView {
    match facts.reply {
        None => skipped_view(),
        Some(reply) => {
            let event = noted_receipt(facts.receipt@, opt(reply.fallback));
            match opt(reply.selected_id) {
                None => fallback_view(
                    prepared,
                    event,
                    "Selector abstained; host scored the 0G catalog"@,
                ),
                Some(id) => match place_of(prepared, id) {
                    None => fallback_view(
                        prepared,
                        ReceiptView { validation: DecisionValidation::Rejected, ..event },
                        "Unknown route ID"@,
                    ),
                    Some(k) => if facts.live_fingerprint is None {
                        fallback_view(
                            route_views(facts.live@),
                            ReceiptView { validation: DecisionValidation::Stale, ..event },
                            "Route catalog unavailable"@,
                        )
                    } else if !facts.validation.accepted {
                        fallback_view(
                            route_views(facts.live@),
                            ReceiptView {
                                validation: rejected_as(facts.validation.rejection),
                                ..event
                            },
                            "Route changed before dispatch"@,
                        )
                    } else {
                        scheduled_view(prepared[k].choice, event)
                    },
                },
            }
        },
    }
}

/// The decision on a request, and the record of how it came about.
pub open spec fn decision_of(
    request: RunRequest,
    prepared: Seq<RouteView>,
    facts: HostFacts,
) -> VerdictView {
    if comes_to_ask(request, prepared, facts) {
        verdict_of(prepared, facts)
    } else {
        skipped_view()
    }
}

/// What is reported of a decision. The host's own policy calls no selector, so what it decides
/// has no receipt.
pub open spec fn reported_of<L, P>(
    request: RunRequest,
    backend: RouteBackend<L, P>,
    prepared: Seq<RouteView>,
    facts: HostFacts,
) -> VerdictView {
    let decision = decision_of(request, prepared, facts);
    VerdictView {
        choice: decision.choice,
        event: if backend is HostPolicy {
            None
        } else {
            decision.event
        },
    }
}

/// Whether the host comes to ask a selector.
pub fn may_ask(request: &RunRequest, prepared: &Vec<PreparedRoute>, facts: &HostFacts) -> (r: bool)
    ensures
        r == comes_to_ask(*request, route_views(prepared@), *facts),
{
    requested(request) && prepared.len() > 0 && facts.fingerprint.is_some()
        && facts.eligible.len() == prepared.len() && all_eligible(&facts.eligible)
}

fn noted(event: &DecisionEvent, fallback: &Option<String>) -> (r: DecisionEvent)
    ensures
        r@ == noted_receipt(event@, opt(*fallback)),
{
    let mut event = clone_event(event);
    let ghost before = event@;
    if let Some(reason) = fallback {
        event.fallbacks.push(reason.clone());
        assert(event@.fallbacks =~= before.fallbacks.push(reason@));
    }
    event
}

/// What becomes of an answer.
pub fn settle(prepared: &Vec<PreparedRoute>, facts: &HostFacts) -> (r: RouteDecision)
    ensures
        r@ == verdict_of(route_views(prepared@), *facts),
{
    let reply = match &facts.reply {
        Some(reply) => reply,
        None => {
            return RouteDecision::skipped();
        },
    };
    let mut event = noted(&facts.receipt, &reply.fallback);
    let selected = match &reply.selected_id {
        Some(selected) => selected,
        None => {
            return scored_fallback(
                prepared,
                event,
                "Selector abstained; host scored the 0G catalog",
            );
        },
    };
    let place = match find_route(prepared, selected.as_str()) {
        Some(place) => place,
        None => {
            event.validation = DecisionValidation::Rejected;
            return scored_fallback(prepared, event, "Unknown route ID");
        },
    };
    if facts.live_fingerprint.is_none() {
        event.validation = DecisionValidation::Stale;
        return scored_fallback(&facts.live, event, "Route catalog unavailable");
    }
    if !facts.validation.accepted {
        event.validation = rejection_receipt(facts.validation.rejection);
        return scored_fallback(&facts.live, event, "Route changed before dispatch");
    }
    assert(route_views(prepared@)[place as int] == prepared@[place as int]@);
    scheduled(clone_choice(&prepared[place].choice), event)
}

/// Routes one new task, with the receipt where a selector was asked. Where nothing comes of it,
/// the task stays with the harness that was selected first.
pub fn choose_with_report<L, P>(
    request: &RunRequest,
    backend: &RouteBackend<L, P>,
    prepared: &Vec<PreparedRoute>,
    facts: &HostFacts,
) -> (r: RouteDecision)
    ensures
        r@ == reported_of(*request, *backend, route_views(prepared@), *facts),
        r@.choice == decision_of(*request, route_views(prepared@), *facts).choice,
        r@.event is Some <==> comes_to_ask(*request, route_views(prepared@), *facts)
            && facts.reply is Some && !(backend is HostPolicy),
{
    if !may_ask(request, prepared, facts) {
        return RouteDecision::skipped();
    }
    let decision = settle(prepared, facts);
    match backend {
        RouteBackend::HostPolicy => RouteDecision { choice: decision.choice, event: None },
        _ => decision,
    }
}

/// Routes one new task; the receipt is not asked for. When the live status shows a selector at
/// work is decided step by step, by [`crate::route_run`].
pub fn choose_with_activity<L, P>(
    request: &RunRequest,
    backend: &RouteBackend<L, P>,
    prepared: &Vec<PreparedRoute>,
    facts: &HostFacts,
) -> (r: Option<RouteChoice>)
    ensures
        (match r {
            Some(choice) => Some(choice@),
            None => None,
        }) == reported_of(*request, *backend, route_views(prepared@), *facts).choice,
{
    choose_with_report(request, backend, prepared, facts).choice
}

/// The selector's own answer stands: it names a prepared route, and the workflow accepts it
/// against the live ones.
pub open spec fn answer_stands(
    request: RunRequest,
    prepared: Seq<RouteView>,
    facts: HostFacts,
) -> bool {
    &&& comes_to_ask(request, prepared, facts)
    &&& facts.reply matches Some(reply)
    &&& opt(reply.selected_id) matches Some(id)
    &&& place_of(prepared, id) is Some
    &&& facts.live_fingerprint is Some
    &&& facts.validation.accepted
}

/// The route that the selector's own answer stands for.
pub open spec fn answered_route(
    request: RunRequest,
    prepared: Seq<RouteView>,
    facts: HostFacts,
) -> Option<PickView> {
    if answer_stands(request, prepared, facts) {
        Some(prepared[place_of(prepared, opt(facts.reply->0.selected_id)->0)->0].choice)
    } else {
        None
    }
}

/// Routes one new task by the selector's answer alone. Every error or abstention leaves the
/// task with the harness that was selected first.
pub fn choose_route(request: &RunRequest, prepared: &Vec<PreparedRoute>, facts: &HostFacts) -> (r:
    Option<RouteChoice>)
    ensures
        (match r {
            Some(choice) => Some(choice@),
            None => None,
        }) == answered_route(*request, route_views(prepared@), *facts),
{
    if !may_ask(request, prepared, facts) || facts.live_fingerprint.is_none()
        || !facts.validation.accepted {
        return None;
    }
    let selected = match &facts.reply {
        Some(reply) => match &reply.selected_id {
            Some(selected) => selected,
            None => {
                return None;
            },
        },
        None => {
            return None;
        },
    };
    match find_route(prepared, selected.as_str()) {
        Some(place) => {
            assert(route_views(prepared@)[place as int] == prepared@[place as int]@);
            Some(clone_choice(&prepared[place].choice))
        },
        None => None,
    }
}

proof fn lemma_place(routes: Seq<RouteView>, id: Seq<char>)
    ensures
        place_of(routes, id) matches Some(k) ==> 0 <= k < routes.len() && routes[k].id == id,
        forall|i: int|
            0 <= i < routes.len() && (#[trigger] routes[i]).id == id ==> (place_of(routes, id)
                matches Some(k) && k <= i),
    decreases routes.len(),
{
    if routes.len() > 0 {
        let rest = routes.drop_last();
        lemma_place(rest, id);
        assert forall|i: int| 0 <= i < routes.len() && (#[trigger] routes[i]).id == id implies (
        place_of(routes, id) matches Some(k) && k <= i) by {
            if i < rest.len() {
                assert(rest[i].id == id);
            }
        }
    }
}

/// A selection names the first route with its id, where there is one.
pub proof fn law_selection_names_one_route(routes: Seq<RouteView>, id: Seq<char>)
    ensures
        match place_of(routes, id) {
            Some(k) => 0 <= k < routes.len() && routes[k].id == id && forall|i: int|
                0 <= i < k ==> (#[trigger] routes[i]).id != id,
            None => forall|i: int| 0 <= i < routes.len() ==> (#[trigger] routes[i]).id != id,
        },
{
    lemma_place(routes, id);
}

/// A task is only ever sent where the host itself prepared a route, whatever a selector answers
/// and whatever its receipt says.
pub proof fn law_choices_are_prepared_routes<L, P>(
    request: RunRequest,
    backend: RouteBackend<L, P>,
    prepared: Seq<RouteView>,
    facts: HostFacts,
)
    ensures
        ({
            let reported = reported_of(request, backend, prepared, facts);
            let live = route_views(facts.live@);
            reported.choice matches Some(choice) ==> {
                ||| exists|i: int|
                    0 <= i < prepared.len() && (#[trigger] prepared[i]).choice == choice
                ||| exists|i: int| 0 <= i < live.len() && (#[trigger] live[i]).choice == choice
            }
        }),
{
    let live = route_views(facts.live@);
    if comes_to_ask(request, prepared, facts) && facts.reply is Some {
        let id = opt(facts.reply->0.selected_id);
        assert(prepared[0].choice == prepared[0].choice);
        if live.len() > 0 {
            assert(live[0].choice == live[0].choice);
        }
        if id is Some {
            lemma_place(prepared, id->0);
        }
    }
}

/// Where a selector was asked and its receipt came in as accepted, with the selection that it
/// answered, the receipt that goes out names the route that was taken.
pub proof fn law_receipts_name_the_route_taken<L, P>(
    request: RunRequest,
    backend: RouteBackend<L, P>,
    prepared: Seq<RouteView>,
    facts: HostFacts,
)
    requires
        !(backend is HostPolicy),
        facts.receipt@.validation == DecisionValidation::Accepted,
        facts.reply matches Some(reply) ==> facts.receipt@.selected == opt(reply.selected_id),
    ensures
        ({
            let reported = reported_of(request, backend, prepared, facts);
            let live = route_views(facts.live@);
            reported.choice matches Some(choice) ==> {
                &&& reported.event matches Some(event)
                &&& event.validation == DecisionValidation::Accepted
                &&& event.observed_outcome == Some(scheduled_text(choice))
                &&& (exists|i: int|
                    0 <= i < prepared.len() && (#[trigger] prepared[i]).choice == choice
                        && event.selected == Some(prepared[i].id)) || (exists|i: int|
                    0 <= i < live.len() && (#[trigger] live[i]).choice == choice
                        && event.selected == Some(live[i].id))
            }
        }),
{
    let live = route_views(facts.live@);
    if comes_to_ask(request, prepared, facts) && facts.reply is Some {
        let id = opt(facts.reply->0.selected_id);
        assert(prepared[0].choice == prepared[0].choice);
        if live.len() > 0 {
            assert(live[0].choice == live[0].choice);
        }
        if id is Some {
            lemma_place(prepared, id->0);
        }
    }
}

/// There is a receipt exactly where a selector was asked; the host's own policy, which asks
/// none, leaves none.
pub proof fn law_receipts_need_a_selector<L, P>(
    request: RunRequest,
    backend: RouteBackend<L, P>,
    prepared: Seq<RouteView>,
    facts: HostFacts,
)
    ensures
        reported_of(request, backend, prepared, facts).event is Some <==> comes_to_ask(
            request,
            prepared,
            facts,
        ) && facts.reply is Some && !(backend is HostPolicy),
{
}

/// A request that does not ask for a route is left alone.
pub proof fn law_unmarked_requests_are_left_alone<L, P>(
    request: RunRequest,
    backend: RouteBackend<L, P>,
    prepared: Seq<RouteView>,
    facts: HostFacts,
)
    requires
        !asks_for_route(request.model_options@),
    ensures
        reported_of(request, backend, prepared, facts) == skipped_view(),
{
}

/// A known selection that the workflow accepts is followed; every other answer gets the
/// best-ranked route, with the reason in the selector's receipt, as long as there is a route at
/// all.
pub proof fn law_answers_are_followed_or_replaced<L, P>(
    request: RunRequest,
    backend: RouteBackend<L, P>,
    prepared: Seq<RouteView>,
    facts: HostFacts,
)
    requires
        comes_to_ask(request, prepared, facts),
        facts.reply is Some,
    ensures
        ({
            let decision = reported_of(request, backend, prepared, facts);
            let live = route_views(facts.live@);
            let id = opt(facts.reply->0.selected_id);
            let known = id is Some && place_of(prepared, id->0) is Some;
            let accepted = facts.live_fingerprint is Some && facts.validation.accepted;
            &&& known && accepted ==> decision.choice == Some(
                prepared[place_of(prepared, id->0)->0].choice,
            )
            &&& !known ==> decision.choice == Some(prepared[0].choice)
            &&& known && !accepted ==> decision.choice == if live.len() > 0 {
                Some(live[0].choice)
            } else {
                None
            }
            &&& !(known && accepted) && !(backend is HostPolicy) ==> decision.event->0.fallbacks.len()
                > facts.receipt@.fallbacks.len()
        }),
{
}

/// Until an answer names a known route, nothing that is found out after it counts.
pub proof fn law_late_facts_do_not_matter<L, P>(
    request: RunRequest,
    backend: RouteBackend<L, P>,
    prepared: Seq<RouteView>,
    facts: HostFacts,
    other: HostFacts,
)
    requires
        other.fingerprint == facts.fingerprint,
        other.eligible == facts.eligible,
        other.reply == facts.reply,
        other.receipt == facts.receipt,
        facts.reply matches Some(reply) ==> (opt(reply.selected_id) matches Some(id) ==> place_of(
            prepared,
            id,
        ) is None),
    ensures
        reported_of(request, backend, prepared, facts) == reported_of(
            request,
            backend,
            prepared,
            other,
        ),
{
}

/// Where the selector's answer stands, the report follows it too, with nothing to fall back
/// from but what the selector itself named.
pub proof fn law_a_standing_answer_is_reported<L, P>(
    request: RunRequest,
    backend: RouteBackend<L, P>,
    prepared: Seq<RouteView>,
    facts: HostFacts,
)
    ensures
        answered_route(request, prepared, facts) matches Some(choice) ==> {
            let decision = reported_of(request, backend, prepared, facts);
            &&& decision.choice == Some(choice)
            &&& !(backend is HostPolicy) ==> decision.event->0.fallbacks == noted_receipt(
                facts.receipt@,
                opt(facts.reply->0.fallback),
            ).fallbacks
        },
{
}

/// A route's fingerprint facts change with its model.
pub proof fn law_facts_change_with_the_model(a: RouteView, b: RouteView)
    requires
        a.choice.model != b.choice.model,
    ensures
        facts_of(a) != facts_of(b),
{
}

/// Every prepared route leads through the router, to the model that its id names, and there
/// are never more than [`MAX_ROUTES`].
pub proof fn law_routes_lead_through_the_router(
    ranked: Seq<OgView>,
    objective: Objective,
    trust: TrustMode,
)
    ensures
        ({
            let routes = routes_to(ranked, objective, trust);
            &&& routes.len() <= MAX_ROUTES
            &&& routes.len() == 0 <==> ranked.len() == 0
            &&& forall|i: int|
                0 <= i < routes.len() ==> {
                    &&& (#[trigger] routes[i]).choice.harness == HarnessId::Og
                    &&& routes[i].choice.model == Some(routes[i].id)
                    &&& routes[i].id == ranked[i].id
                }
        }),
{
}

/// The option is there and is this text.
pub open spec fn says(options: Map<Seq<char>, Json>, key: Seq<char>, text: Seq<char>) -> bool {
    options.contains_key(key) && options[key]@ == JsonView::Text(text)
}

/// A request asks to be routed where it is marked, is not marked as routed, and has no option
/// but these marks and those whose names begin with `og`.
pub proof fn law_marked_requests_ask_for_a_route(options: Map<Seq<char>, Json>)
    ensures
        ({
            let on = |key: Seq<char>|
                options.contains_key(key) && options[key]@ == JsonView::Bool(true);
            asks_for_route(options) <==> {
                &&& on("jevAuto"@)
                &&& !on("jevRouted"@)
                &&& forall|key: Seq<char>| #[trigger]
                    options.contains_key(key) ==> {
                        ||| key == "jevAuto"@
                        ||| key == "jevRouted"@
                        ||| exists|rest: Seq<char>| key == #[trigger] ("og"@ + rest)
                    }
            }
        }),
{
    assert forall|key: Seq<char>| #[trigger] options.contains_key(key) implies (routable(key) <==> {
        ||| key == "jevAuto"@
        ||| key == "jevRouted"@
        ||| exists|rest: Seq<char>| key == #[trigger] ("og"@ + rest)
    }) by {
        law_a_prefix_has_a_rest(key, "og"@);
    }
}

/// What a request says of its objective and its trust mode counts over the environment; what it
/// does not say, or says otherwise, is the environment's.
pub proof fn law_requests_name_their_policy(
    options: Map<Seq<char>, Json>,
    env_objective: Objective,
    env_trust: TrustMode,
)
    ensures
        ({
            let objective = objective_asked(options, env_objective);
            let aim = "ogObjective"@;
            &&& says(options, aim, "cost"@) ==> objective == Objective::Cost
            &&& says(options, aim, "speed"@) ==> objective == Objective::Speed
            &&& says(options, aim, "quality"@) ==> objective == Objective::Quality
            &&& !says(options, aim, "cost"@) && !says(options, aim, "speed"@) && !says(
                options,
                aim,
                "quality"@,
            ) ==> objective == env_objective
        }),
        ({
            let trust = trust_asked(options, env_trust);
            let tier = "ogTrust"@;
            &&& says(options, tier, "private"@) ==> trust == TrustMode::Private
            &&& says(options, tier, "verified"@) ==> trust == TrustMode::Verified
            &&& says(options, tier, "standard"@) ==> trust == TrustMode::Standard
            &&& !says(options, tier, "private"@) && !says(options, tier, "verified"@) && !says(
                options,
                tier,
                "standard"@,
            ) ==> trust == env_trust
        }),
{
    reveal_strlit("cost");
    reveal_strlit("speed");
    reveal_strlit("quality");
    assert("cost"@.len() == 4 && "speed"@.len() == 5 && "quality"@.len() == 7);
    reveal_strlit("private");
    reveal_strlit("verified");
    reveal_strlit("standard");
    assert("private"@.len() == 7 && "verified"@.len() == 8 && "standard"@.len() == 8);
    assert("verified"@[0] == 'v' && "standard"@[0] == 's');
}

/// Every prepared route carries the policy that the request resolves to: the trust mode by its
/// name, an attestation exactly where the trust mode is not standard, and the router's order for
/// the objective.
pub proof fn law_routes_carry_the_policy(
    routes: Seq<RouteView>,
    request: RunRequest,
    catalog: Seq<OgView>,
    costs: Seq<i64>,
    env_objective: Objective,
    env_trust: TrustMode,
    i: int,
)
    requires
        is_prepared(routes, request, catalog, costs, env_objective, env_trust),
        0 <= i < routes.len(),
    ensures
        ({
            let objective = objective_asked(request.model_options@, env_objective);
            let trust = trust_asked(request.model_options@, env_trust);
            let choice = routes[i].choice;
            &&& trust == TrustMode::Private <==> choice.trust_mode == "private"@
            &&& trust == TrustMode::Verified <==> choice.trust_mode == "verified"@
            &&& trust == TrustMode::Standard <==> choice.trust_mode == "standard"@
            &&& choice.verify_tee <==> choice.trust_mode != "standard"@
            &&& objective == Objective::Cost <==> choice.provider_strategy == "price"@
            &&& objective == Objective::Speed <==> choice.provider_strategy == "latency"@
            &&& objective == Objective::Quality <==> choice.provider_strategy == "default"@
        }),
{
    let objective = objective_asked(request.model_options@, env_objective);
    let trust = trust_asked(request.model_options@, env_trust);
    law_the_router_is_told_the_policy(objective, trust);
}

/// The prepared routes lead to the best-ranked models, in order and at most sixteen: each to the
/// model of its id, with that model's name and facts.
pub proof fn law_routes_lead_to_the_best_models(
    routes: Seq<RouteView>,
    request: RunRequest,
    catalog: Seq<OgView>,
    costs: Seq<i64>,
    env_objective: Objective,
    env_trust: TrustMode,
)
    requires
        is_prepared(routes, request, catalog, costs, env_objective, env_trust),
    ensures
        exists|ranked: Seq<OgView>|
            {
                &&& #[trigger] is_ranked(
                    ranked,
                    request.prompt@,
                    catalog,
                    objective_asked(request.model_options@, env_objective),
                    trust_asked(request.model_options@, env_trust),
                    costs,
                )
                &&& routes.len() == vstd::math::min(16, ranked.len() as int)
                &&& forall|i: int|
                    0 <= i < routes.len() ==> {
                        &&& (#[trigger] routes[i]).id == ranked[i].id
                        &&& routes[i].choice.model == Some(ranked[i].id)
                        &&& routes[i].choice.harness == HarnessId::Og
                        &&& routes[i].model_label == ranked[i].name
                        &&& routes[i].description == route_text(ranked[i])
                        &&& routes[i].provider_name == "0G"@
                        &&& routes[i].reasoning_levels == seq![ReasoningLevel::Medium]
                        &&& routes[i].confidence_bits == 0x3FE8_0000_0000_0000
                    }
            },
{
    let objective = objective_asked(request.model_options@, env_objective);
    let trust = trust_asked(request.model_options@, env_trust);
    let ranked = choose|ranked: Seq<OgView>| #[trigger]
        is_ranked(ranked, request.prompt@, catalog, objective, trust, costs) && routes == routes_to(
            ranked,
            objective,
            trust,
        );
    assert(is_ranked(ranked, request.prompt@, catalog, objective, trust, costs));
}

/// A route is described by its model's name and facts, each under its name, with semicolons
/// between.
pub proof fn law_routes_are_described_by_their_facts(m: OgView)
    ensures
        route_text(m) == joined(
            seq![
                m.name,
                "capabilities="@ + capability_list(m.capabilities),
                "context="@ + decimal(m.context_length as int),
                "providers="@ + decimal(m.provider_count as int),
                "trust="@ + m.verifiability,
                "promptPrice="@ + m.prompt_price,
            ],
            "; "@,
        ),
{
    let a = m.name;
    let b = "capabilities="@ + capability_list(m.capabilities);
    let c = "context="@ + decimal(m.context_length as int);
    let d = "providers="@ + decimal(m.provider_count as int);
    let e = "trust="@ + m.verifiability;
    let f = "promptPrice="@ + m.prompt_price;
    lemma_semicolons();
    lemma_first_fact(a);
    let facts = seq![a];
    lemma_next_fact(facts, "capabilities="@, capability_list(m.capabilities));
    let facts = facts.push(b);
    lemma_next_fact(facts, "context="@, decimal(m.context_length as int));
    let facts = facts.push(c);
    lemma_next_fact(facts, "providers="@, decimal(m.provider_count as int));
    let facts = facts.push(d);
    lemma_next_fact(facts, "trust="@, m.verifiability);
    let facts = facts.push(e);
    lemma_next_fact(facts, "promptPrice="@, m.prompt_price);
    let facts = facts.push(f);
    assert(seq![a, b, c, d, e, f] =~= facts);
}

/// A fingerprint sees a route's id, description, harness, model, and efforts, and nothing else.
pub proof fn law_facts_are_what_is_fingerprinted(a: RouteView, b: RouteView)
    ensures
        facts_of(a) == facts_of(b) <==> {
            &&& a.id == b.id
            &&& a.description == b.description
            &&& a.choice.harness == b.choice.harness
            &&& a.choice.model == b.choice.model
            &&& a.reasoning_levels == b.reasoning_levels
        },
{
}

/// A route expires 45 seconds after it was prepared, or at the end of time.
pub proof fn law_routes_expire(now_ms: i64)
    ensures
        expiry(now_ms) == vstd::math::min(now_ms + 45_000, i64::MAX as int),
{
}

/// The remote selector is asked about the task, cut to 6,000 characters, where it runs, and
/// about every route by its description, in order.
pub proof fn law_the_remote_selector_sees_every_route<L, P>(
    backend: RouteBackend<L, P>,
    request: RunRequest,
    prepared: Seq<RouteView>,
    revision: u64,
)
    requires
        backend is TypeSafeJev,
    ensures
        question_of(backend, request, prepared, revision) matches Some(q) && {
            &&& q.task == request.prompt@.take(vstd::math::min(6_000, request.prompt@.len() as int))
            &&& q.state_version == revision
            &&& between(
                q.context,
                "Coding task. Sandbox: "@ + request.sandbox@,
                ". Select one 0G model id. The host sets provider strategy and 0G Router chooses the provider."@,
            ) == Some(". Image attachments: "@ + decimal(request.attachments as int))
            &&& q.candidates.len() == prepared.len()
            &&& forall|i: int|
                0 <= i < prepared.len() ==> #[trigger] q.candidates[i] == (
                    prepared[i].id,
                    prepared[i].description,
                )
        },
        considered_of(backend, prepared) == question_of(
            backend,
            request,
            prepared,
            revision,
        )->0.candidates,
{
    law_the_head_is_the_first_characters(request.prompt@, 6_000);
    let q = question_of(backend, request, prepared, revision)->0;
    let front = "Coding task. Sandbox: "@ + request.sandbox@;
    let middle = ". Image attachments: "@ + decimal(request.attachments as int);
    let tail =
        ". Select one 0G model id. The host sets provider strategy and 0G Router chooses the provider."@;
    assert(q.context =~= front + middle + tail);
    law_what_stands_between(q.context, front, tail, middle);
}

/// The local selector is asked about the task, cut to 900 characters, where it runs, and about
/// the first eight routes by their labels, cut to 90 characters, in order.
pub proof fn law_the_local_selector_sees_the_first_routes<L, P>(
    backend: RouteBackend<L, P>,
    request: RunRequest,
    prepared: Seq<RouteView>,
    revision: u64,
)
    requires
        backend is LocalLaya,
    ensures
        question_of(backend, request, prepared, revision) matches Some(q) && {
            &&& q.task == request.prompt@.take(vstd::math::min(900, request.prompt@.len() as int))
            &&& q.state_version == revision
            &&& between(
                q.context,
                "Choose a 0G model. Sandbox "@ + request.sandbox@,
                " attachments. Host enforces permissions."@,
            ) == Some("; "@ + decimal(request.attachments as int))
            &&& q.candidates.len() == vstd::math::min(8, prepared.len() as int)
            &&& considered_of(backend, prepared).len() == q.candidates.len()
            &&& forall|i: int|
                0 <= i < q.candidates.len() ==> {
                    let label = prepared[i].provider_name + ": "@ + prepared[i].model_label;
                    &&& #[trigger] q.candidates[i] == (
                        prepared[i].id,
                        label.take(vstd::math::min(90, label.len() as int)),
                    )
                    &&& considered_of(backend, prepared)[i] == (prepared[i].id, label)
                }
        },
{
    law_the_head_is_the_first_characters(request.prompt@, 900);
    let q = question_of(backend, request, prepared, revision)->0;
    let front = "Choose a 0G model. Sandbox "@ + request.sandbox@;
    let middle = "; "@ + decimal(request.attachments as int);
    let tail = " attachments. Host enforces permissions."@;
    assert(q.context =~= front + middle + tail);
    law_what_stands_between(q.context, front, tail, middle);
    assert forall|i: int| 0 <= i < q.candidates.len() implies ({
        let label = prepared[i].provider_name + ": "@ + prepared[i].model_label;
        &&& #[trigger] q.candidates[i] == (
            prepared[i].id,
            label.take(vstd::math::min(90, label.len() as int)),
        )
        &&& considered_of(backend, prepared)[i] == (prepared[i].id, label)
    }) by {
        assert(local_views(prepared)[i] == prepared[i]);
        law_the_head_is_the_first_characters(label_of(prepared[i]), 90);
    }
}

/// The host's policy asks nobody and answers with the best-ranked route.
pub proof fn law_the_host_takes_the_best_route<L, P>(
    backend: RouteBackend<L, P>,
    request: RunRequest,
    prepared: Seq<PreparedRoute>,
    revision: u64,
)
    requires
        backend is HostPolicy,
    ensures
        question_of(backend, request, route_views(prepared), revision) is None,
        prepared.len() > 0 ==> host_answer(prepared).selected_id == Some(prepared[0].id)
            && host_answer(prepared).confidence_bits == Some(prepared[0].confidence_bits),
        prepared.len() == 0 ==> host_answer(prepared).selected_id is None,
        host_answer(prepared).fallback is None,
{
}

/// A receipt says who was asked, about what, and what the answer was, as of the revision and
/// the moment. Only the local selector's probability and only the remote selector's fit are
/// told.
pub proof fn law_receipts_say_who_answered_what<L, P>(
    backend: RouteBackend<L, P>,
    prepared: Seq<RouteView>,
    reply: SelectorReply,
    revision: u64,
    at_ms: i64,
)
    ensures
        ({
            let receipt = receipt_view(backend, prepared, reply, revision, at_ms);
            &&& receipt.id == "intake-"@ + decimal(revision as int)
            &&& receipt.revision == revision
            &&& receipt.at_ms == at_ms
            &&& receipt.stage == DecisionStage::Intake
            &&& receipt.validation == DecisionValidation::Accepted
            &&& receipt.backend == DecisionBackend::Laya <==> backend is LocalLaya
            &&& receipt.backend == DecisionBackend::Jev <==> backend is TypeSafeJev
            &&& receipt.backend == DecisionBackend::Host <==> backend is HostPolicy
            &&& receipt.candidates == considered_of(backend, prepared)
            &&& (receipt.selected is Some) == (reply.selected_id is Some)
            &&& reply.selected_id matches Some(id) ==> receipt.selected == Some(id@)
            &&& receipt.confidence_bits == reply.confidence_bits
            &&& backend is LocalLaya ==> receipt.selected_probability_bits
                == reply.selected_probability_bits
            &&& !(backend is LocalLaya) ==> receipt.selected_probability_bits is None
            &&& backend is TypeSafeJev ==> receipt.fit_bits == reply.fit_bits
            &&& !(backend is TypeSafeJev) ==> receipt.fit_bits is None
            &&& receipt.fallbacks.len() == 0
            &&& receipt.observed_outcome is None
        }),
{
}

/// The task stays where it was, without a receipt, where the request does not ask, there is no
/// route, the routes have no fingerprint, the workflow does not find every one of them eligible,
/// or nobody answers.
pub proof fn law_one_ineligible_route_stops_the_decision<L, P>(
    request: RunRequest,
    backend: RouteBackend<L, P>,
    prepared: Seq<RouteView>,
    facts: HostFacts,
)
    requires
        ({
            ||| !asks_for_route(request.model_options@)
            ||| prepared.len() == 0
            ||| facts.fingerprint is None
            ||| facts.eligible@.len() != prepared.len()
            ||| exists|i: int| 0 <= i < facts.eligible@.len() && !(#[trigger] facts.eligible@[i])
            ||| facts.reply is None
        }),
    ensures
        reported_of(request, backend, prepared, facts).choice is None,
        reported_of(request, backend, prepared, facts).event is None,
        answered_route(request, prepared, facts) is None,
{
}

/// A route has this id.
pub open spec fn is_known(routes: Seq<RouteView>, id: Option<Seq<char>>) -> bool {
    id is Some && exists|i: int| 0 <= i < routes.len() && (#[trigger] routes[i]).id == id->0
}

proof fn lemma_known(routes: Seq<RouteView>, id: Seq<char>)
    ensures
        place_of(routes, id) is Some <==> is_known(routes, Some(id)),
{
    lemma_place(routes, id);
    if let Some(k) = place_of(routes, id) {
        assert(routes[k].id == id);
    }
}

/// The answer stands exactly where the host came to ask, the answer names a prepared route, the
/// live routes have a fingerprint, and the workflow accepts it; the task then goes by the first
/// route of that id.
pub proof fn law_a_known_accepted_answer_stands(
    request: RunRequest,
    prepared: Seq<RouteView>,
    facts: HostFacts,
)
    ensures
        ({
            let answered = answered_route(request, prepared, facts);
            let id = match facts.reply {
                Some(reply) => opt(reply.selected_id),
                None => None,
            };
            &&& answered is Some <==> comes_to_ask(request, prepared, facts) && is_known(
                prepared,
                id,
            ) && facts.live_fingerprint is Some && facts.validation.accepted
            &&& answered is Some ==> exists|k: int|
                {
                    &&& 0 <= k < prepared.len()
                    &&& (#[trigger] prepared[k]).id == id->0
                    &&& answered == Some(prepared[k].choice)
                    &&& forall|j: int| 0 <= j < k ==> (#[trigger] prepared[j]).id != id->0
                }
        }),
{
    if let Some(reply) = facts.reply {
        if let Some(id) = opt(reply.selected_id) {
            lemma_known(prepared, id);
            law_selection_names_one_route(prepared, id);
            if let Some(k) = place_of(prepared, id) {
                assert(prepared[k].id == id);
            }
        }
    }
}

/// The receipt of a decision says why the answer was not followed, behind the reasons that it
/// came with and the selector's own; what was asked and answered it keeps; and it says what the
/// task was scheduled as, or that there was nothing to schedule.
pub proof fn law_receipts_say_why<L, P>(
    request: RunRequest,
    backend: RouteBackend<L, P>,
    prepared: Seq<RouteView>,
    facts: HostFacts,
)
    requires
        comes_to_ask(request, prepared, facts),
        facts.reply is Some,
        !(backend is HostPolicy),
    ensures
        ({
            let decision = reported_of(request, backend, prepared, facts);
            let event = decision.event->0;
            let came = facts.receipt@;
            let id = opt(facts.reply->0.selected_id);
            let known = is_known(prepared, id);
            let reasons = match opt(facts.reply->0.fallback) {
                Some(reason) => came.fallbacks.push(reason),
                None => came.fallbacks,
            };
            &&& decision.event is Some
            &&& id is None ==> event.fallbacks == reasons.push(
                "Selector abstained; host scored the 0G catalog"@,
            )
            &&& id is Some && !known ==> event.fallbacks == reasons.push("Unknown route ID"@)
            &&& known && facts.live_fingerprint is None ==> event.fallbacks == reasons.push(
                "Route catalog unavailable"@,
            )
            &&& known && facts.live_fingerprint is Some && !facts.validation.accepted
                ==> event.fallbacks == reasons.push("Route changed before dispatch"@)
            &&& known && facts.live_fingerprint is Some && facts.validation.accepted
                ==> event.fallbacks == reasons
            &&& event.id == came.id && event.revision == came.revision
            &&& event.backend == came.backend && event.stage == came.stage
            &&& event.candidates == came.candidates && event.at_ms == came.at_ms
            &&& event.confidence_bits == came.confidence_bits
            &&& event.selected_probability_bits == came.selected_probability_bits
            &&& event.fit_bits == came.fit_bits
            &&& decision.choice is None ==> event.observed_outcome == Some("0G catalog empty"@)
            &&& decision.choice matches Some(choice) ==> event.observed_outcome == Some(
                "0G scheduled model="@ + (match choice.model {
                    Some(model) => model,
                    None => "unknown"@,
                }) + " strategy="@ + choice.provider_strategy + " trust="@ + choice.trust_mode,
            )
        }),
{
    if let Some(id) = opt(facts.reply->0.selected_id) {
        lemma_known(prepared, id);
    }
}

/// Where nothing takes the place of a selection that does not stand, the receipt keeps why: a
/// catalog that is gone or has moved on makes it stale, and a rejection of the workflow keeps
/// its reason.
pub proof fn law_rejections_keep_their_reason<L, P>(
    request: RunRequest,
    backend: RouteBackend<L, P>,
    prepared: Seq<RouteView>,
    facts: HostFacts,
)
    requires
        comes_to_ask(request, prepared, facts),
        facts.reply is Some,
        !(backend is HostPolicy),
        is_known(prepared, opt(facts.reply->0.selected_id)),
        facts.live_fingerprint is None || !facts.validation.accepted,
        facts.live@.len() == 0,
    ensures
        ({
            let told = reported_of(request, backend, prepared, facts).event->0.validation;
            let why = facts.validation.rejection;
            &&& facts.live_fingerprint is None ==> told == DecisionValidation::Stale
            &&& facts.live_fingerprint is Some ==> {
                &&& why == Some(RejectReason::Expired) ==> told == DecisionValidation::Expired
                &&& why == Some(RejectReason::Unauthorized) ==> told
                    == DecisionValidation::Unauthorized
                &&& why == Some(RejectReason::StaleReadSet) || why == Some(
                    RejectReason::StaleRevision,
                ) ==> told == DecisionValidation::Stale
                &&& why is None || why == Some(RejectReason::Other) ==> told
                    == DecisionValidation::Rejected
            }
        }),
{
    let id = opt(facts.reply->0.selected_id)->0;
    lemma_known(prepared, id);
}

/// A choice that stands is reported as it is, and its receipt says what was scheduled.
pub proof fn law_a_standing_choice_is_scheduled(choice: PickView, event: ReceiptView)
    ensures
        ({
            let decision = scheduled_view(choice, event);
            &&& decision.choice == Some(choice)
            &&& decision.event->0.selected == event.selected
            &&& decision.event->0.validation == event.validation
            &&& decision.event->0.fallbacks == event.fallbacks
            &&& decision.event->0.observed_outcome == Some(
                "0G scheduled model="@ + (match choice.model {
                    Some(model) => model,
                    None => "unknown"@,
                }) + " strategy="@ + choice.provider_strategy + " trust="@ + choice.trust_mode,
            )
        }),
{
}

/// The first route takes the place of an answer that does not count, and its receipt names it as
/// accepted, with the reason behind those that it came with. Without a route there is no choice,
/// and the receipt keeps its own selection.
pub proof fn law_the_first_route_takes_the_place(
    routes: Seq<RouteView>,
    event: ReceiptView,
    reason: Seq<char>,
)
    ensures
        ({
            let decision = fallback_view(routes, event, reason);
            let told = decision.event->0;
            &&& told.fallbacks == event.fallbacks.push(reason)
            &&& routes.len() > 0 ==> decision.choice == Some(routes[0].choice) && told.selected
                == Some(routes[0].id) && told.validation == DecisionValidation::Accepted
            &&& routes.len() == 0 ==> decision.choice is None && told.selected == event.selected
                && told.validation == event.validation
        }),
{
}

/// A prepared route stands for what it says: where it leads, how, and under which trust.
pub proof fn law_routes_stand_for_what_they_say(r: PreparedRoute)
    ensures
        r@.id == r.id@,
        r@.description == r.description@,
        r@.provider_name == r.provider_name@,
        r@.model_label == r.model_label@,
        r@.reasoning_levels == r.reasoning_levels@,
        r@.confidence_bits == r.confidence_bits,
        r@.choice.harness == r.choice.harness,
        r@.choice.model == opt(r.choice.model),
        r@.choice.provider_strategy == r.choice.provider_strategy@,
        r@.choice.trust_mode == r.choice.trust_mode@,
        r@.choice.verify_tee == r.choice.verify_tee,
{
}

/// Routes are listed one for one.
pub proof fn law_route_views_are_one_for_one(s: Seq<PreparedRoute>, i: int)
    ensures
        route_views(s).len() == s.len(),
        0 <= i < s.len() ==> route_views(s)[i] == s[i]@,
{
}

}
