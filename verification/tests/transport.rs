use keel_dsh::adapter::{
    apply_overlay, build_call, efforts, error_detail, http_error_code, is_og_header, list_models,
    og_endpoint, provider_info, provider_retry_after_ms, request_id, resolve_model, wait_until,
    DeepSeekCatalogModel, DeepSeekConnectionOptions, RequestOverlay, RetryAfter,
};
use keel_dsh::bridge::{connection_options, Endpoints, LoopKind};
use keel_dsh::chat::{CallPurpose, FinishReason, GenerateOptions, LlmError, StreamChunk};
use keel_dsh::transport::{
    check_answer, send_failed, Answer, DeepSeekAdapter, Exchange, Next, Payload, ReadEvent,
};
use keel_dsh::wire::{WireChoice, WireChunk, WireDelta, WireErrorDetail};

fn s(text: &str) -> String {
    text.to_string()
}

fn connection(kind: LoopKind) -> DeepSeekConnectionOptions<u8> {
    let env = Endpoints { deepseek_base_url: None, og_base_url: None, og_trust_mode: None };
    connection_options(kind, &env, 1)
}

fn overlay(verify_tee: bool) -> RequestOverlay {
    RequestOverlay {
        base_url: s("https://r"),
        api_key_env: s("OG_API_KEY"),
        headers: vec![(s("x-a"), s("1"))],
        verify_tee,
    }
}

fn options() -> GenerateOptions {
    GenerateOptions {
        model: s("deepseek-chat"),
        system: None,
        messages: vec![],
        tools: None,
        reasoning_effort: None,
        temperature_bits: None,
        max_tokens: None,
        stop: None,
        purpose: None,
        session_id: None,
    }
}

#[test]
fn listed_models_fall_back_to_their_id() {
    let mut c = connection(LoopKind::Deepseek);
    c.models = vec![
        DeepSeekCatalogModel { id: s("a"), ..DeepSeekCatalogModel::default() },
        DeepSeekCatalogModel {
            id: s("b"),
            name: Some(s("B")),
            description: Some(s("best")),
            context_window: Some(5),
            max_tokens: Some(6),
        },
    ];
    let listed = list_models(&c, "deepseek");
    assert_eq!(listed[0].name, "a");
    assert_eq!(listed[1].name, "B");
    assert_eq!(listed[1].description, Some(s("best")));
    assert!(listed[1].text_only);
    let known = resolve_model(&c, "deepseek", "b");
    assert_eq!((known.context_window, known.default_max_tokens), (5, 6));
    assert_eq!(known.info.name, "B");
    let unknown = resolve_model(&c, "deepseek", "z");
    assert_eq!((unknown.context_window, unknown.default_max_tokens), (1_000_000, 256_000));
    assert_eq!(unknown.info.name, "z");
    assert!(unknown.info.text_only);
    assert_eq!(unknown.default_effort, "high");
    assert_eq!(provider_info("p"), (s("p"), s("DeepSeek")));
}

#[test]
fn a_deployment_without_thinking_offers_off_alone() {
    let mut c = connection(LoopKind::Deepseek);
    c.defaults.thinking = Some(s("disabled"));
    c.defaults.reasoning_effort = Some(s("max"));
    let m = resolve_model(&c, "deepseek", "z");
    assert_eq!(m.efforts, efforts(true));
    assert_eq!(m.efforts.len(), 1);
    assert_eq!(m.default_effort, "off");
    c.defaults.thinking = None;
    assert_eq!(resolve_model(&c, "deepseek", "z").default_effort, "max");
    c.defaults.reasoning_effort = Some(s("off"));
    let m = resolve_model(&c, "deepseek", "z");
    assert_eq!(m.default_effort, "off");
    assert_eq!(m.efforts.iter().map(|e| e.id.as_str()).collect::<Vec<_>>(), vec!["off", "high", "max"]);
}

#[test]
fn waits_are_seconds_or_dates() {
    assert_eq!(provider_retry_after_ms(None, 0), None);
    assert_eq!(provider_retry_after_ms(Some(""), 0), None);
    assert_eq!(provider_retry_after_ms(Some("0"), 0), None);
    assert_eq!(provider_retry_after_ms(Some("000"), 0), None);
    assert_eq!(provider_retry_after_ms(Some("120"), 0), Some(RetryAfter::Seconds(s("120"))));
    assert_eq!(provider_retry_after_ms(Some("1.5"), 0), None);
    let date = "Thu, 01 Jan 1970 00:00:02 GMT";
    assert_eq!(provider_retry_after_ms(Some(date), 500), Some(RetryAfter::Millis(1_500)));
    assert_eq!(provider_retry_after_ms(Some(date), 2_000), None);
    assert_eq!(provider_retry_after_ms(Some(date), 9_000), None);
    assert_eq!(provider_retry_after_ms(Some("soon"), 0), None);
    assert_eq!(
        wait_until(Some(i64::MAX), i64::MIN),
        Some(RetryAfter::Millis(i64::MAX as i128 - i64::MIN as i128))
    );
    assert_eq!(wait_until(None, 0), None);
}

#[test]
fn request_ids_come_from_the_first_header_that_is_there() {
    assert_eq!(request_id(&Some(Some(s("a"))), &Some(Some(s("b")))), Some(s("a")));
    assert_eq!(request_id(&None, &Some(Some(s("b")))), Some(s("b")));
    assert_eq!(request_id(&Some(None), &Some(Some(s("b")))), None);
    assert_eq!(request_id(&Some(Some(s(""))), &Some(Some(s("b")))), None);
    assert_eq!(request_id(&None, &None), None);
}

#[test]
fn statuses_have_stable_codes() {
    assert_eq!(http_error_code(401, Some("Q"), Some("W")), "AUTH");
    assert_eq!(http_error_code(403, None, None), "AUTH");
    assert_eq!(http_error_code(429, Some("Q"), None), "Q");
    assert_eq!(http_error_code(429, None, Some("W")), "RATE_LIMIT");
    assert_eq!(http_error_code(400, None, Some("W")), "W");
    assert_eq!(http_error_code(400, None, None), "INVALID_REQUEST");
    assert_eq!(http_error_code(500, None, Some("W")), "SERVER");
    assert_eq!(http_error_code(599, None, None), "SERVER");
    assert_eq!(http_error_code(404, None, Some("W")), "HTTP_404");
}

#[test]
fn details_join_what_is_there() {
    let detail = WireErrorDetail {
        message: Some(s("m")),
        kind: Some(s("ignored")),
        error_type: None,
        code: Some(s("c")),
    };
    assert_eq!(error_detail(Some(&detail)), "c m");
    assert_eq!(error_detail(None), "");
}

fn answer(status: u16) -> Answer {
    Answer {
        status,
        retry_after: Some(s("3")),
        request_id: None,
        deepseek_request_id: Some(Some(s("r1"))),
        error: None,
    }
}

#[test]
fn answers_outside_2xx_are_failures() {
    assert_eq!(check_answer(&answer(200), 0, None, None), Ok(()));
    assert_eq!(check_answer(&answer(299), 0, None, None), Ok(()));
    let failure = check_answer(&answer(300), 0, None, None).unwrap_err();
    assert_eq!(failure.error.message, "DeepSeek API error (HTTP 300)");
    assert_eq!(failure.error.code, "HTTP_300");
    assert_eq!(failure.status, 300);
    assert_eq!(failure.retry_after, Some(RetryAfter::Seconds(s("3"))));
    assert_eq!(failure.request_id, Some(s("r1")));
    let mut told = answer(400);
    told.error = Some(WireErrorDetail { message: Some(s("bad")), ..WireErrorDetail::default() });
    let failure = check_answer(&told, 0, None, Some("CTX")).unwrap_err();
    assert_eq!(failure.error.message, "bad");
    assert_eq!(failure.error.code, "CTX");
}

#[test]
fn the_router_is_known_by_credential_or_address() {
    assert!(og_endpoint(&connection(LoopKind::Og)));
    assert!(!og_endpoint(&connection(LoopKind::Deepseek)));
    let mut c = connection(LoopKind::Deepseek);
    c.base_url = s("https://edge.0g.ai/v1");
    assert!(og_endpoint(&c));
    assert!(is_og_header("x-0g-provider"));
    assert!(is_og_header("zg-node"));
    assert!(!is_og_header("x-zg-node"));
}

#[test]
fn overlays_replace_endpoint_credential_and_headers_together() {
    let c = apply_overlay(connection(LoopKind::Deepseek), &Some(overlay(false)));
    assert_eq!(c.base_url, "https://r");
    assert_eq!(c.api_key_env, "OG_API_KEY");
    assert_eq!(c.extra_headers, vec![(s("x-a"), s("1"))]);
    assert_eq!(c.retry_policy, 1);
    let c = apply_overlay(connection(LoopKind::Deepseek), &None);
    assert_eq!(c.base_url, "https://api.deepseek.com");
    assert_eq!(c.api_key_env, "DEEPSEEK_API_KEY");
}

#[test]
fn calls_carry_their_headers_in_order() {
    let o = options();
    let attribution = vec![(s("x-app"), s("keel"))];
    let c = connection(LoopKind::Deepseek);
    let call = build_call(&c, &None, &o, Ok(s("k")), "u", &attribution).unwrap();
    assert_eq!(call.url, "https://api.deepseek.com/chat/completions");
    assert_eq!(
        call.headers,
        vec![
            (s("authorization"), s("Bearer k")),
            (s("content-type"), s("application/json")),
            (s("accept"), s("text/event-stream")),
            (s("x-deepseek-harness-user-id"), s("u")),
            (s("x-app"), s("keel")),
        ]
    );
    assert_eq!(call.body.verify_tee, None);
    let mut o = options();
    o.session_id = Some(s("S"));
    o.purpose = Some(CallPurpose::Compaction);
    let over = Some(overlay(true));
    let c = apply_overlay(c, &over);
    let call = build_call(&c, &over, &o, Ok(s("k")), "u", &vec![]).unwrap();
    assert_eq!(call.url, "https://r/chat/completions");
    assert_eq!(
        call.headers[4..].to_vec(),
        vec![
            (s("x-deepseek-harness-session-id"), s("S")),
            (s("x-deepseek-harness-compact"), s("1")),
            (s("x-a"), s("1")),
        ]
    );
    assert_eq!(call.body.verify_tee, Some(true));
    o.reasoning_effort = Some(s("low"));
    assert_eq!(
        build_call(&c, &over, &o, Ok(s("k")), "u", &vec![]).err().map(|e| e.code),
        Some(s("UNSUPPORTED_REASONING_EFFORT"))
    );
}

#[test]
fn without_a_key_there_is_no_call() {
    let mut o = options();
    o.reasoning_effort = Some(s("low"));
    let refused = Err(LlmError { message: s("no"), code: s("MISSING_CREDENTIAL") });
    let c = connection(LoopKind::Deepseek);
    assert_eq!(
        build_call(&c, &None, &o, refused, "u", &vec![]).err().map(|e| e.code),
        Some(s("MISSING_CREDENTIAL"))
    );
}

#[test]
fn sessions_are_routed_one_by_one() {
    let mut adapter = DeepSeekAdapter::new();
    assert!(adapter.overlay_of(&Some(s("S"))).is_none());
    adapter.route(s("S"), overlay(true));
    assert!(adapter.overlay_of(&Some(s("S"))).unwrap().verify_tee);
    assert!(adapter.overlay_of(&Some(s("T"))).is_none());
    assert!(adapter.overlay_of(&None).is_none());
    assert!(adapter.overlays().get("S").is_some());
    adapter.unroute("S");
    assert!(adapter.overlay_of(&Some(s("S"))).is_none());
}

fn text(t: &str) -> Payload {
    Payload {
        text: s("{}"),
        chunk: Some(WireChunk {
            choices: vec![WireChoice {
                delta: Some(WireDelta { content: Some(s(t)), ..WireDelta::default() }),
                finish_reason: None,
            }],
            usage: None,
        }),
    }
}

fn done() -> Payload {
    Payload { text: s("[DONE]"), chunk: None }
}

fn failed(message: &str, code: &str) -> Next {
    Next::Failed(LlmError { message: s(message), code: s(code) })
}

#[test]
fn the_sentinel_finishes_and_nothing_behind_it_counts() {
    let mut e = Exchange::new(&connection(LoopKind::Deepseek));
    let out = e.read(ReadEvent::Payloads(vec![text("a")]));
    assert_eq!(out.next, Next::Read);
    assert_eq!(out.chunks.len(), 2);
    let out = e.read(ReadEvent::Payloads(vec![text("b"), done(), text("c")]));
    assert_eq!(out.next, Next::Finished);
    assert_eq!(out.chunks.len(), 3);
    assert_eq!(out.chunks[0], StreamChunk::TextDelta { index: 0, text: s("b") });
    assert_eq!(out.chunks[2], StreamChunk::Finish { reason: FinishReason::Stop });
}

#[test]
fn a_payload_that_does_not_decode_fails_behind_what_came_before() {
    let mut e = Exchange::new(&connection(LoopKind::Deepseek));
    let bad = Payload { text: s("oops"), chunk: None };
    let out = e.read(ReadEvent::Payloads(vec![text("a"), bad, text("b")]));
    assert_eq!(out.chunks.len(), 2);
    assert_eq!(out.next, failed("malformed SSE payload: oops", "MALFORMED_RESPONSE"));
}

#[test]
fn only_the_router_may_close_a_stream() {
    let cut = || failed("SSE stream ended without [DONE]", "STREAM_CLOSED");
    let mut direct = Exchange::new(&connection(LoopKind::Deepseek));
    direct.read(ReadEvent::Payloads(vec![text("a")]));
    assert_eq!(direct.read(ReadEvent::Ended).next, cut());
    let mut routed = Exchange::new(&connection(LoopKind::Og));
    routed.read(ReadEvent::Payloads(vec![text("a")]));
    let out = routed.read(ReadEvent::Ended);
    assert_eq!(out.next, Next::Finished);
    assert_eq!(out.chunks.len(), 2);
    let mut idle = Exchange::new(&connection(LoopKind::Og));
    assert_eq!(idle.read(ReadEvent::Ended).next, cut());
}

#[test]
fn reads_fail_with_their_reason() {
    let aborted = || failed("DeepSeek request aborted by caller", "ABORTED");
    let mut e = Exchange::new(&connection(LoopKind::Deepseek));
    assert_eq!(e.read(ReadEvent::Aborted).next, aborted());
    assert_eq!(e.read(ReadEvent::Failed { aborted: true }).next, aborted());
    assert_eq!(
        e.read(ReadEvent::Failed { aborted: false }).next,
        failed("DeepSeek API stream from https://api.deepseek.com failed", "TRANSPORT")
    );
    assert_eq!(
        e.read(ReadEvent::TimedOut).next,
        failed("DeepSeek stream idle timeout after 300000ms", "TIMEOUT")
    );
    assert_eq!(e.patience_ms(), 300_000);
    let mut c = connection(LoopKind::Deepseek);
    c.stream_idle_timeout_ms = 0;
    assert_eq!(Exchange::new(&c).patience_ms(), 1);
    assert_eq!(
        send_failed("https://x", false),
        LlmError { message: s("DeepSeek API request to https://x failed"), code: s("TRANSPORT") }
    );
    assert_eq!(send_failed("https://x", true).code, "ABORTED");
}
