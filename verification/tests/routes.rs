use keel_dsh::json::Json;
use keel_dsh::og::{fallback_models, Objective, OgModel, TrustMode};
use keel_dsh::proto::{
    DecisionBackend, DecisionEvent, DecisionResult, DecisionValidation, HarnessId, ReasoningLevel,
    RunRequest,
};
use keel_dsh::route_run::{RouteAction, RouteEvent, RouteRun};
use keel_dsh::routing::{
    choose_route, choose_with_activity, choose_with_report, compact_local_routes, find_route,
    host_reply, objective_of, plan_actions, prepare_routes, question, reasoning_compatible,
    receipt, requested, route_fingerprint, routes_of, trust_of, HostFacts, PreparedRoute,
    RejectReason, RouteBackend, RouteChoice, RouteDecision, SelectorReply, Validation,
};
use keel_dsh::table::Table;

fn s(text: &str) -> String {
    text.to_string()
}

fn request() -> RunRequest {
    RunRequest {
        prompt: s("fix test"),
        harness: Some(HarnessId::Codex),
        model: None,
        reasoning: None,
        model_options: Table::new(),
        cwd: s("/tmp"),
        sandbox: s("WorkspaceWrite"),
        auto_approve: false,
        resume: None,
        attachments: 0,
    }
}

fn auto() -> RunRequest {
    let mut r = request();
    r.model_options.insert(s("jevAuto"), Json::Bool(true));
    r
}

#[test]
fn route_snapshot_changes_when_a_model_changes() {
    let mut routes = vec![PreparedRoute {
        id: s("route_0"),
        choice: RouteChoice {
            harness: HarnessId::Codex,
            model: Some(s("model-a")),
            provider_strategy: s("default"),
            trust_mode: s("standard"),
            verify_tee: false,
        },
        description: s("Codex model A"),
        provider_name: s("Codex"),
        model_label: s("A"),
        reasoning_levels: vec![ReasoningLevel::High],
        confidence_bits: 0.75f64.to_bits(),
    }];
    let original = route_fingerprint(&routes);
    routes[0].choice.model = Some(s("model-b"));
    assert_ne!(route_fingerprint(&routes), original);
}

#[test]
fn requested_reasoning_must_exist_on_routed_model() {
    assert!(reasoning_compatible(None, &vec![]));
    assert!(reasoning_compatible(
        Some(ReasoningLevel::High),
        &vec![ReasoningLevel::High],
    ));
    assert!(!reasoning_compatible(
        Some(ReasoningLevel::High),
        &vec![ReasoningLevel::Medium],
    ));
}

#[test]
fn only_new_auto_tasks_are_routed() {
    let mut request = request();
    assert!(!requested(&request));
    request.model_options.insert(s("jevAuto"), Json::Bool(true));
    assert!(requested(&request));
    request
        .model_options
        .insert(s("ogObjective"), Json::Text(s("cost")));
    assert!(requested(&request));
    request.model_options.remove("ogObjective");
    request.model_options.insert(s("fast"), Json::Bool(true));
    assert!(!requested(&request));
    request.model_options.remove("fast");
    request
        .model_options
        .insert(s("jevRouted"), Json::Bool(true));
    assert!(!requested(&request));
}

#[test]
fn a_request_may_name_objective_and_trust() {
    let mut r = request();
    assert_eq!(objective_of(&r, Objective::Speed), Objective::Speed);
    assert_eq!(trust_of(&r, TrustMode::Verified), TrustMode::Verified);
    for (name, value) in [
        ("cost", Objective::Cost),
        ("speed", Objective::Speed),
        ("quality", Objective::Quality),
    ] {
        r.model_options.insert(s("ogObjective"), Json::Text(s(name)));
        assert_eq!(objective_of(&r, Objective::Speed), value);
    }
    for (name, value) in [
        ("private", TrustMode::Private),
        ("verified", TrustMode::Verified),
        ("standard", TrustMode::Standard),
    ] {
        r.model_options.insert(s("ogTrust"), Json::Text(s(name)));
        assert_eq!(trust_of(&r, TrustMode::Private), value);
    }
    r.model_options.insert(s("ogTrust"), Json::Text(s("Private")));
    assert_eq!(trust_of(&r, TrustMode::Standard), TrustMode::Standard);
}

fn prepared() -> Vec<PreparedRoute> {
    prepare_routes(
        &auto(),
        &fallback_models(),
        &vec![],
        Objective::Quality,
        TrustMode::Standard,
    )
}

#[test]
fn routes_follow_the_ranking() {
    let routes = prepared();
    assert_eq!(
        routes.iter().map(|r| r.id.as_str()).collect::<Vec<_>>(),
        vec!["glm-5.2", "qwen-32b", "deepseek-16b"]
    );
    assert_eq!(
        routes[0].choice,
        RouteChoice {
            harness: HarnessId::Og,
            model: Some(s("glm-5.2")),
            provider_strategy: s("default"),
            trust_mode: s("standard"),
            verify_tee: false,
        }
    );
    assert_eq!(
        routes[0].description,
        "GLM-5.2; capabilities=reasoning,tools,json; context=1048576; providers=3; trust=TeeML; promptPrice=0.00000483"
    );
    assert_eq!(f64::from_bits(routes[0].confidence_bits), 0.75);
    assert_eq!(routes[0].provider_name, "0G");
}

fn many(n: usize) -> Vec<OgModel> {
    (0..n)
        .map(|i| {
            let mut m = fallback_models().remove(0);
            m.id = format!("m{i}");
            m
        })
        .collect()
}

#[test]
fn there_are_sixteen_routes_at_most_and_eight_local_ones() {
    let routes = routes_of(&many(20), Objective::Speed, TrustMode::Private);
    assert_eq!(routes.len(), 16);
    assert_eq!(routes[15].id, "m15");
    assert_eq!(routes[15].choice.provider_strategy, "latency");
    assert!(routes[15].choice.verify_tee);
    let local = compact_local_routes(&routes);
    assert_eq!(local.len(), 8);
    assert_eq!(local[7].id, "m7");
    assert_eq!(compact_local_routes(&prepared()).len(), 3);
    assert_eq!(find_route(&routes, "m3"), Some(3));
    assert_eq!(find_route(&routes, "m16"), None);
}

#[test]
fn actions_expire_after_three_quarters_of_a_minute() {
    let actions = plan_actions(&prepared(), 9, "f", 1_000);
    assert_eq!(actions.len(), 3);
    assert_eq!(actions[1].id, "qwen-32b");
    assert_eq!(actions[1].prepared_at_revision, 9);
    assert_eq!(actions[1].read_set_fingerprint, "f");
    assert_eq!(actions[1].expires_at_ms, 46_000);
    assert_eq!(plan_actions(&prepared(), 9, "f", i64::MAX - 1)[0].expires_at_ms, i64::MAX);
}

type Backend = RouteBackend<u8, u8>;

#[test]
fn questions_fit_their_selector() {
    let mut r = auto();
    r.prompt = "p".repeat(7_000);
    r.attachments = 2;
    let routes = routes_of(&many(10), Objective::Quality, TrustMode::Standard);
    let q = question(&Backend::TypeSafeJev(0), &r, &routes, 4).unwrap();
    assert_eq!(q.task.len(), 6_000);
    assert_eq!(
        q.context,
        "Coding task. Sandbox: WorkspaceWrite. Image attachments: 2. Select one 0G model id. The host sets provider strategy and 0G Router chooses the provider."
    );
    assert_eq!(q.state_version, 4);
    assert_eq!(q.candidates.len(), 10);
    assert_eq!(q.candidates[9].summary, routes[9].description);
    let q = question(&Backend::LocalLaya(0), &r, &routes, 4).unwrap();
    assert_eq!(q.task.len(), 900);
    assert_eq!(
        q.context,
        "Choose a 0G model. Sandbox WorkspaceWrite; 2 attachments. Host enforces permissions."
    );
    assert_eq!(q.candidates.len(), 8);
    assert_eq!(q.candidates[0].summary, "0G: GLM-5.2");
    assert!(question(&Backend::HostPolicy, &r, &routes, 4).is_none());
    let mut long = many(1);
    long[0].name = "n".repeat(200);
    let routes = routes_of(&long, Objective::Quality, TrustMode::Standard);
    let q = question(&Backend::LocalLaya(0), &r, &routes, 4).unwrap();
    assert_eq!(q.candidates[0].summary.len(), 90);
}

fn reply(selected: Option<&str>) -> SelectorReply {
    SelectorReply {
        selected_id: selected.map(str::to_string),
        fallback: None,
        confidence_bits: Some(1),
        selected_probability_bits: Some(2),
        fit_bits: Some(3),
    }
}

#[test]
fn receipts_name_who_was_asked() {
    let routes = prepared();
    let e = receipt(&Backend::LocalLaya(0), &routes, &reply(Some("qwen-32b")), 7, 99);
    assert_eq!(e.id, "intake-7");
    assert_eq!(e.backend, DecisionBackend::Laya);
    assert_eq!(e.result, DecisionResult::Selected { candidate_id: s("qwen-32b") });
    assert_eq!((e.selected_probability_bits, e.fit_bits), (Some(2), None));
    assert_eq!(e.candidates[1].summary, "0G: Qwen 32B");
    let e = receipt(&Backend::TypeSafeJev(0), &routes, &reply(None), 7, 99);
    assert_eq!(e.backend, DecisionBackend::Jev);
    assert_eq!(e.result, DecisionResult::Abstained);
    assert_eq!((e.selected_probability_bits, e.fit_bits), (None, Some(3)));
    assert_eq!(e.candidates[1].summary, routes[1].description);
    let own = host_reply(&routes);
    assert_eq!(own.selected_id, Some(s("glm-5.2")));
    let e = receipt(&Backend::HostPolicy, &routes, &own, 7, 99);
    assert_eq!(e.backend, DecisionBackend::Host);
    assert_eq!(e.confidence_bits, Some(0.75f64.to_bits()));
}

fn facts(reply: Option<SelectorReply>) -> HostFacts {
    let answered = match &reply {
        Some(r) => receipt(&Backend::TypeSafeJev(0), &prepared(), r, 7, 99),
        None => receipt(&Backend::TypeSafeJev(0), &prepared(), &host_reply(&vec![]), 7, 99),
    };
    HostFacts {
        fingerprint: Some(s("f")),
        eligible: vec![true, true, true],
        reply,
        receipt: answered,
        live: prepared(),
        live_fingerprint: Some(s("f")),
        validation: Validation { accepted: true, rejection: None },
    }
}

fn report(r: &RunRequest, prepared: &Vec<PreparedRoute>, f: &HostFacts) -> RouteDecision {
    choose_with_report(r, &Backend::TypeSafeJev(0), prepared, f)
}

fn event(d: RouteDecision) -> DecisionEvent {
    d.event.unwrap()
}

#[test]
fn an_accepted_selection_is_followed() {
    let d = report(&auto(), &prepared(), &facts(Some(reply(Some("qwen-32b")))));
    assert_eq!(d.choice.as_ref().unwrap().model, Some(s("qwen-32b")));
    let e = event(d);
    assert_eq!(e.validation, DecisionValidation::Accepted);
    assert!(e.fallbacks.is_empty());
    assert_eq!(
        e.observed_outcome,
        Some(s("0G scheduled model=qwen-32b strategy=default trust=standard"))
    );
}

#[test]
fn abstentions_and_unknown_ids_get_the_best_route() {
    let mut abstained = reply(None);
    abstained.fallback = Some(s("Timeout"));
    let d = report(&auto(), &prepared(), &facts(Some(abstained)));
    assert_eq!(d.choice.as_ref().unwrap().model, Some(s("glm-5.2")));
    let e = event(d);
    assert_eq!(
        e.fallbacks,
        vec![s("Timeout"), s("Selector abstained; host scored the 0G catalog")]
    );
    assert_eq!(e.result, DecisionResult::Selected { candidate_id: s("glm-5.2") });
    let d = report(&auto(), &prepared(), &facts(Some(reply(Some("nope")))));
    assert_eq!(d.choice.as_ref().unwrap().model, Some(s("glm-5.2")));
    let e = event(d);
    assert_eq!(e.fallbacks, vec![s("Unknown route ID")]);
    assert_eq!(e.validation, DecisionValidation::Accepted);
}

#[test]
fn errors_and_abstentions_leave_the_selected_harness() {
    let chosen = |f: &HostFacts| choose_route(&auto(), &prepared(), f);
    let good = || facts(Some(reply(Some("qwen-32b"))));
    assert_eq!(chosen(&good()).unwrap().model, Some(s("qwen-32b")));
    assert_eq!(chosen(&facts(Some(reply(None)))), None);
    assert_eq!(chosen(&facts(Some(reply(Some("nope"))))), None);
    assert_eq!(chosen(&facts(None)), None);
    let mut f = good();
    f.live_fingerprint = None;
    assert_eq!(chosen(&f), None);
    let mut f = good();
    f.validation = Validation { accepted: false, rejection: Some(RejectReason::Expired) };
    assert_eq!(chosen(&f), None);
    assert_eq!(choose_route(&request(), &prepared(), &good()), None);
}

#[test]
fn changed_routes_are_replaced_by_live_ones() {
    let mut f = facts(Some(reply(Some("qwen-32b"))));
    f.live.remove(0);
    f.live_fingerprint = None;
    let d = report(&auto(), &prepared(), &f);
    assert_eq!(d.choice.as_ref().unwrap().model, Some(s("qwen-32b")));
    assert_eq!(event(d).fallbacks, vec![s("Route catalog unavailable")]);
    f.live_fingerprint = Some(s("g"));
    f.validation = Validation { accepted: false, rejection: Some(RejectReason::StaleReadSet) };
    let d = report(&auto(), &prepared(), &f);
    assert_eq!(event(d).fallbacks, vec![s("Route changed before dispatch")]);
}

#[test]
fn without_live_routes_the_rejection_stands() {
    for (rejection, validation) in [
        (Some(RejectReason::Expired), DecisionValidation::Expired),
        (Some(RejectReason::Unauthorized), DecisionValidation::Unauthorized),
        (Some(RejectReason::StaleReadSet), DecisionValidation::Stale),
        (Some(RejectReason::StaleRevision), DecisionValidation::Stale),
        (Some(RejectReason::Other), DecisionValidation::Rejected),
        (None, DecisionValidation::Rejected),
    ] {
        let mut f = facts(Some(reply(Some("qwen-32b"))));
        f.live = vec![];
        f.validation = Validation { accepted: false, rejection };
        let d = report(&auto(), &prepared(), &f);
        assert_eq!(d.choice, None);
        let e = event(d);
        assert_eq!(e.validation, validation);
        assert_eq!(e.observed_outcome, Some(s("0G catalog empty")));
    }
}

#[test]
fn what_does_not_come_to_a_question_is_skipped() {
    let skipped = RouteDecision::skipped();
    let good = || facts(Some(reply(Some("qwen-32b"))));
    assert_eq!(report(&request(), &prepared(), &good()), skipped);
    assert_eq!(report(&auto(), &vec![], &good()), skipped);
    let mut f = good();
    f.fingerprint = None;
    assert_eq!(report(&auto(), &prepared(), &f), skipped);
    let mut f = good();
    f.eligible[1] = false;
    assert_eq!(report(&auto(), &prepared(), &f), skipped);
    assert_eq!(report(&auto(), &prepared(), &facts(None)), skipped);
}

#[test]
fn the_host_policy_leaves_no_receipt() {
    let mut f = facts(Some(host_reply(&prepared())));
    let d = choose_with_report(&auto(), &Backend::HostPolicy, &prepared(), &f);
    assert_eq!(d.choice.as_ref().unwrap().model, Some(s("glm-5.2")));
    assert_eq!(d.event, None);
    f.validation = Validation { accepted: false, rejection: None };
    let d = choose_with_report(&auto(), &Backend::HostPolicy, &prepared(), &f);
    assert!(d.choice.is_some());
    assert_eq!(d.event, None);
    assert_eq!(
        choose_with_activity(&auto(), &Backend::HostPolicy, &prepared(), &f),
        d.choice
    );
}

/// Runs to the decision; `answer` is the selector's, `there` whether it can be made. The
/// actions come back by name.
fn drive(
    request: &RunRequest,
    backend: &Backend,
    answer: Option<&str>,
    there: bool,
) -> (RouteRun, Vec<String>) {
    let mut run = RouteRun::new(backend);
    let mut seen = vec![];
    let mut next = RouteEvent::Begun;
    loop {
        next = match run.step(request, backend, next) {
            RouteAction::Prepare => {
                seen.push(s("prepare"));
                RouteEvent::Prepared { routes: prepared() }
            }
            RouteAction::Check => {
                seen.push(s("check"));
                RouteEvent::Checked {
                    revision: 7,
                    fingerprint: Some(s("f")),
                    eligible: vec![true; run.prepared.len()],
                }
            }
            RouteAction::Ready => {
                seen.push(s("ready"));
                RouteEvent::Readied { there }
            }
            RouteAction::Show { on } => {
                seen.push(format!("show {on}"));
                RouteEvent::Shown { at_ms: 99 }
            }
            RouteAction::Ask { input } => {
                seen.push(format!("ask {}", input.candidates.len()));
                RouteEvent::Answered { reply: reply(answer) }
            }
            RouteAction::Bound { receipt } => {
                seen.push(receipt.id.clone());
                RouteEvent::Bounded { receipt }
            }
            RouteAction::Relist => {
                seen.push(s("relist"));
                RouteEvent::Relisted { live: prepared(), fingerprint: Some(s("f")) }
            }
            RouteAction::Validate { place, authorized } => {
                seen.push(format!("validate {place} {authorized}"));
                RouteEvent::Validated {
                    validation: Validation { accepted: true, rejection: None },
                }
            }
            RouteAction::Settle => return (run, seen),
        };
    }
}

#[test]
fn the_status_frames_the_question() {
    let local = Backend::LocalLaya(0);
    let (run, seen) = drive(&auto(), &local, Some("qwen-32b"), true);
    assert_eq!(
        seen,
        vec![
            "prepare", "check", "show true", "ask 3", "show false", "intake-7", "relist",
            "validate 1 true",
        ]
    );
    let d = choose_with_report(&auto(), &local, &run.prepared, &run.facts);
    assert_eq!(d.choice.as_ref().unwrap().model, Some(s("qwen-32b")));
    assert_eq!(event(d).at_ms, 99);
    for answer in [None, Some("nope")] {
        let (run, seen) = drive(&auto(), &Backend::TypeSafeJev(0), answer, true);
        assert_eq!(
            seen,
            vec!["prepare", "check", "ready", "show true", "ask 3", "show false", "intake-7"]
        );
        let d = choose_with_report(&auto(), &Backend::TypeSafeJev(0), &run.prepared, &run.facts);
        assert_eq!(d.choice.as_ref().unwrap().model, Some(s("glm-5.2")));
        assert!(d.event.is_some());
    }
}

#[test]
fn nothing_is_shown_where_nobody_is_asked() {
    let (run, seen) = drive(&auto(), &Backend::TypeSafeJev(0), None, false);
    assert_eq!(seen, vec!["prepare", "check", "ready"]);
    let d = choose_with_report(&auto(), &Backend::TypeSafeJev(0), &run.prepared, &run.facts);
    assert_eq!(d, RouteDecision::skipped());
    let (run, seen) = drive(&auto(), &Backend::HostPolicy, None, true);
    assert_eq!(seen, vec!["prepare", "check", "relist", "validate 0 true"]);
    let d = choose_with_report(&auto(), &Backend::HostPolicy, &run.prepared, &run.facts);
    assert_eq!(d.choice.unwrap().model, Some(s("glm-5.2")));
    assert_eq!(d.event, None);
    assert!(drive(&request(), &Backend::LocalLaya(0), None, true).1.is_empty());
}
