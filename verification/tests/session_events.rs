use keel_dsh::bridge::{
    activity_event, connection_options, forward_activity, forward_event, missing_credential,
    overlay_for, prompt_config, run_failure, startup_failure, translate, DshHarness, Endpoints,
    LoopKind, SessionEventData, TurnEndReason,
};
use keel_dsh::chat::{BlockType, ContentBlock, FinishReason, LlmFailure, StreamChunk, TokenUsage};
use keel_dsh::json::Json;
use keel_dsh::og::fallback_models;
use keel_dsh::proto::{
    AgentEvent, DecisionActivity, DecisionBackend, DecisionCandidate, DecisionEvent, DecisionPhase,
    DecisionResult, DecisionStage, DecisionValidation, DoneStatus, HarnessId, ReasoningLevel,
    RunRequest, SteeringMode, ToolCall,
};
use keel_dsh::table::Table;

fn s(text: &str) -> String {
    text.to_string()
}

fn receipt() -> DecisionEvent {
    DecisionEvent {
        id: s("dsh-1-1-pre-step"),
        revision: 1,
        backend: DecisionBackend::Jev,
        stage: DecisionStage::PreStep,
        candidates: vec![DecisionCandidate { id: s("inspect"), summary: s("Read files") }],
        result: DecisionResult::Selected { candidate_id: s("inspect") },
        validation: DecisionValidation::Accepted,
        at_ms: 10,
        confidence_bits: None,
        selected_probability_bits: None,
        fit_bits: None,
        fallbacks: vec![],
        observed_outcome: Some(s("completed_without_tool_calls")),
    }
}

#[test]
fn bounded_dsh_receipt_crosses_the_harness_event_boundary() {
    let event = SessionEventData::Extension {
        event_type: s("decision/receipt"),
        receipt: Some(receipt()),
    };
    assert!(matches!(
        translate(&event).as_slice(),
        [AgentEvent::Decision { event: forwarded }] if forwarded == &receipt()
    ));
}

#[test]
fn other_extensions_and_undecodable_receipts_are_silent() {
    assert!(translate(&SessionEventData::Extension {
        event_type: s("decision/receipt"),
        receipt: None,
    })
    .is_empty());
    assert!(translate(&SessionEventData::Extension {
        event_type: s("decision/other"),
        receipt: Some(receipt()),
    })
    .is_empty());
    assert!(translate(&SessionEventData::Other).is_empty());
}

#[test]
fn deltas_and_usage_ride_through() {
    let chunk = |chunk| translate(&SessionEventData::AssistantChunk { chunk });
    assert_eq!(
        chunk(StreamChunk::TextDelta { index: 1, text: s("hi") }),
        vec![AgentEvent::TextDelta { text: s("hi") }]
    );
    assert_eq!(
        chunk(StreamChunk::ReasoningDelta { index: 0, text: s("hm") }),
        vec![AgentEvent::ReasoningDelta { text: s("hm") }]
    );
    assert_eq!(
        chunk(StreamChunk::Usage {
            usage: TokenUsage {
                input_tokens: 7,
                output_tokens: 3,
                cache_read_tokens: Some(2),
                cache_write_tokens: None,
                reasoning_tokens: None,
            },
        }),
        vec![AgentEvent::Usage { input_tokens: 7, output_tokens: 3 }]
    );
    assert!(chunk(StreamChunk::BlockStart { index: 0, block_type: BlockType::Text }).is_empty());
    assert!(chunk(StreamChunk::Finish { reason: FinishReason::Stop }).is_empty());
}

#[test]
fn messages_calls_and_results_keep_their_ids() {
    assert_eq!(
        translate(&SessionEventData::AssistantMessage { message_id: s("m1") }),
        vec![AgentEvent::AssistantMessageCompleted { assistant_message_id: s("m1") }]
    );
    assert_eq!(
        translate(&SessionEventData::ToolCall {
            call_id: s("c1"),
            name: s("bash"),
            arguments: s(r#"{"command":"ls"}"#),
        }),
        vec![AgentEvent::ToolCall { id: s("c1"), call: ToolCall::Exec { command: s("ls") } }]
    );
    let result = |is_error, text: &str| SessionEventData::ToolResult {
        content: vec![ContentBlock::ToolResult {
            tool_call_id: s("c1"),
            is_error,
            content: vec![ContentBlock::Text { text: s(text) }],
        }],
    };
    assert_eq!(
        translate(&result(Some(true), "boom")),
        vec![AgentEvent::ToolResult { id: s("c1"), is_error: true, output: Some(s("boom")) }]
    );
    assert_eq!(
        translate(&result(None, "")),
        vec![AgentEvent::ToolResult { id: s("c1"), is_error: false, output: None }]
    );
    let long = "x".repeat(4_001);
    assert_eq!(
        translate(&result(Some(false), &long)),
        vec![AgentEvent::ToolResult {
            id: s("c1"),
            is_error: false,
            output: Some(format!("{}…", "x".repeat(4_000))),
        }]
    );
    assert!(translate(&SessionEventData::ToolResult { content: vec![] }).is_empty());
    assert!(translate(&SessionEventData::ToolResult {
        content: vec![ContentBlock::Text { text: s("no result") }],
    })
    .is_empty());
}

#[test]
fn only_failed_turns_are_errors() {
    let end = |reason| translate(&SessionEventData::TurnEnd { reason });
    assert_eq!(
        end(TurnEndReason::Error { error: LlmFailure { message: s("no"), code: s("AUTH") } }),
        vec![AgentEvent::Error { message: s("no (AUTH)") }]
    );
    assert!(end(TurnEndReason::Aborted).is_empty());
    assert!(end(TurnEndReason::Other).is_empty());
}

#[test]
fn live_focus_activity_crosses_bridge_without_a_session_event() {
    let (tx, rx) = std::sync::mpsc::channel();
    let mut forwarders = Table::new();
    forwarders.insert(s("dsh-chat"), tx);
    let active = Some(DecisionActivity {
        backend: DecisionBackend::Jev,
        phase: DecisionPhase::ChoosingFocus,
    });
    let (to, event) = forward_activity(&forwarders, "dsh-chat", active).unwrap();
    to.send(event).unwrap();
    assert!(matches!(
        rx.recv().unwrap(),
        AgentEvent::DecisionActivity { activity } if activity == active
    ));
    let (to, event) = forward_activity(&forwarders, "dsh-chat", None).unwrap();
    to.send(event).unwrap();
    assert!(matches!(
        rx.recv().unwrap(),
        AgentEvent::DecisionActivity { activity: None }
    ));
    assert!(forward_activity(&forwarders, "other", active).is_none());
    assert_eq!(activity_event(active), AgentEvent::DecisionActivity { activity: active });
}

#[test]
fn only_forwarded_sessions_are_heard() {
    let mut forwarders = Table::new();
    forwarders.insert(s("a"), 1);
    forwarders.insert(s("b"), 2);
    let event = SessionEventData::AssistantMessage { message_id: s("m") };
    let (to, events) = forward_event(&forwarders, "b", &event).unwrap();
    assert_eq!(*to, 2);
    assert_eq!(events, translate(&event));
    assert!(forward_event(&forwarders, "c", &event).is_none());
}

#[test]
fn failed_runs_end() {
    assert_eq!(
        startup_failure(LoopKind::Og, "no home"),
        vec![
            AgentEvent::Error { message: s("0G router runtime failed to start: no home") },
            AgentEvent::Done {
                status: DoneStatus::Errored,
                error: Some(s("no home")),
                session_id: None,
            },
        ]
    );
    assert_eq!(
        startup_failure(LoopKind::Deepseek, "x")[0],
        AgentEvent::Error { message: s("dsh runtime failed to start: x") }
    );
    assert_eq!(
        run_failure("gone"),
        vec![
            AgentEvent::Error { message: s("gone") },
            AgentEvent::Done {
                status: DoneStatus::Errored,
                error: Some(s("gone")),
                session_id: None,
            },
        ]
    );
}

#[test]
fn each_loop_describes_itself() {
    let dsh = DshHarness::<String>::default();
    assert_eq!(dsh.id(), HarnessId::Dsh);
    assert_eq!(dsh.display_name(), "DeepSeek Harness");
    assert!(dsh.supports_steering());
    assert_eq!(dsh.steering_mode(), SteeringMode::StepBoundary);
    assert_eq!(dsh.reasoning_levels(), vec![ReasoningLevel::Medium]);
    assert_eq!(dsh.thread_name(), "dsh-harness");
    assert_eq!(dsh.decision_data_dir(), None);
    let og = DshHarness::og_with_decision_data_dir(s("/data"));
    assert_eq!(og.id(), HarnessId::Og);
    assert_eq!(og.display_name(), "0G Router");
    assert_eq!(og.thread_name(), "og-router");
    assert_eq!(og.decision_data_dir(), Some(&s("/data")));
    assert_eq!(
        DshHarness::with_decision_data_dir(s("/data")).kind(),
        LoopKind::Deepseek
    );
}

#[test]
fn each_loop_needs_its_own_credential() {
    let dsh = DshHarness::<String>::new();
    let og = DshHarness::<String>::og();
    assert!(dsh.installed(true, false));
    assert!(!dsh.installed(false, true));
    assert!(og.installed(false, true));
    assert!(!og.installed(true, false));
}

#[test]
fn each_loop_offers_its_own_models() {
    let catalog = fallback_models();
    let direct = DshHarness::<String>::new().models(&catalog);
    assert_eq!(direct.len(), 2);
    assert_eq!(direct[0].id, "deepseek-chat");
    assert_eq!(direct[1].label, "DeepSeek Reasoner");
    let routed = DshHarness::<String>::og().models(&catalog);
    assert_eq!(routed.len(), 3);
    assert_eq!(routed[2].id, "deepseek-16b");
    assert_eq!(
        routed[2].description.as_deref(),
        Some("capabilities=code,json; context=65536; providers=5; trust=standard; promptPrice=0.0000011; completionPrice=0.0000033")
    );
}

#[test]
fn endpoint_credential_and_headers_belong_together() {
    let env = Endpoints {
        deepseek_base_url: Some(s("https://proxy.example//")),
        og_base_url: Some(s("https://router.example/v1/")),
        og_trust_mode: Some(s(" private ")),
    };
    let direct = connection_options(LoopKind::Deepseek, &env, 7u8);
    assert_eq!(direct.base_url, "https://proxy.example");
    assert_eq!(direct.api_key_env, "DEEPSEEK_API_KEY");
    assert!(direct.extra_headers.is_empty());
    assert_eq!(direct.max_tokens, 256_000);
    assert_eq!(direct.default_context_window, 1_000_000);
    assert_eq!(direct.stream_idle_timeout_ms, 300_000);
    assert_eq!(direct.retry_policy, 7);
    let routed = connection_options(LoopKind::Og, &env, 7u8);
    assert_eq!(routed.base_url, "https://router.example/v1");
    assert_eq!(routed.api_key_env, "OG_API_KEY");
    assert_eq!(
        routed.extra_headers,
        vec![(s("X-0G-Provider-Trust-Mode"), s("private"))]
    );
    let bare = Endpoints { deepseek_base_url: None, og_base_url: None, og_trust_mode: None };
    assert_eq!(
        connection_options(LoopKind::Deepseek, &bare, ()).base_url,
        "https://api.deepseek.com"
    );
    let og = connection_options(LoopKind::Og, &bare, ());
    assert_eq!(og.base_url, "https://router-api.0g.ai/v1");
    assert_eq!(og.extra_headers[0].1, "standard");
}

#[test]
fn personas_differ() {
    assert_eq!(
        prompt_config(LoopKind::Deepseek),
        (s("Answer the user's task directly and concisely."), true)
    );
    let (persona, identity) = prompt_config(LoopKind::Og);
    assert!(persona.starts_with("You are an AI agent. The 0G Router chooses"));
    assert!(!identity);
}

#[test]
fn a_missing_key_names_its_variable() {
    let error = missing_credential("OG_API_KEY");
    assert_eq!(error.message, "no API key: set OG_API_KEY in the environment");
    assert_eq!(error.code, "MISSING_CREDENTIAL");
}

fn request(options: Vec<(&str, Json)>) -> RunRequest {
    let mut model_options = Table::new();
    for (key, value) in options {
        model_options.insert(s(key), value);
    }
    RunRequest {
        prompt: s("hi"),
        harness: None,
        model: None,
        reasoning: None,
        model_options,
        cwd: s(""),
        sandbox: s("WorkspaceWrite"),
        auto_approve: false,
        resume: None,
        attachments: 0,
    }
}

#[test]
fn overlays_carry_trust_sort_and_attestation() {
    assert!(overlay_for(&request(vec![]), "https://r").is_none());
    assert!(overlay_for(&request(vec![("ogProviderSort", Json::Bool(true))]), "https://r").is_none());
    let plain = overlay_for(
        &request(vec![("ogProviderSort", Json::Text(s("default")))]),
        "https://r",
    )
    .unwrap();
    assert_eq!(plain.base_url, "https://r");
    assert_eq!(plain.api_key_env, "OG_API_KEY");
    assert_eq!(plain.headers, vec![(s("X-0G-Provider-Trust-Mode"), s("standard"))]);
    assert!(!plain.verify_tee);
    let full = overlay_for(
        &request(vec![
            ("ogProviderSort", Json::Text(s("price"))),
            ("ogTrustMode", Json::Text(s("private"))),
            ("ogVerifyTee", Json::Bool(true)),
        ]),
        "https://r",
    )
    .unwrap();
    assert_eq!(
        full.headers,
        vec![
            (s("X-0G-Provider-Trust-Mode"), s("private")),
            (s("X-0G-Provider-Sort"), s("price")),
        ]
    );
    assert!(full.verify_tee);
}
