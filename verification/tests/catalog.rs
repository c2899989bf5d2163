use keel_dsh::json::{parse_json, Json};
use keel_dsh::og::{
    base_url, bonus, catalog_of, contains_any, describe, eligible, fallback_models, fresh_cache,
    infer_task, load_catalog, models_url, normalize, objective_from_env, penalty, price_text,
    provider_strategy, rank, ranking, score, trust_from_env, trust_header, verify_tee, Objective,
    OgModel, RawModel, TrustMode,
};

fn s(text: &str) -> String {
    text.to_string()
}

/// The order of doubles, as integers.
fn order_key(x: f64) -> i64 {
    let bits = (x + 0.0).to_bits() as i64;
    if bits < 0 {
        bits ^ i64::MAX
    } else {
        bits
    }
}

fn costs(prompt: &str, models: &Vec<OgModel>, trust: TrustMode) -> Vec<i64> {
    let task = infer_task(prompt);
    eligible(models, trust)
        .iter()
        .map(|m| {
            let p: f64 = m.prompt_price.parse().unwrap();
            let c: f64 = m.completion_price.parse().unwrap();
            let mut x = 50.0 + bonus(m, task) as f64;
            x -= (p + c) * 500_000.0;
            x -= penalty(m, trust) as f64;
            order_key(x)
        })
        .collect()
}

#[test]
fn order_keys_are_ordered() {
    assert!(order_key(-2.0) < order_key(-1.0));
    assert!(order_key(-1.0) < order_key(0.0));
    assert!(order_key(0.0) < order_key(0.5));
    assert_eq!(order_key(-0.0), order_key(0.0));
}

#[test]
fn cost_prefers_the_cheaper_code_model() {
    let models = fallback_models();
    let ranked = rank(
        "fix the rust bug",
        &models,
        Objective::Cost,
        TrustMode::Standard,
        &costs("fix the rust bug", &models, TrustMode::Standard),
    );
    assert_eq!(ranked[0].id, "deepseek-16b");
    assert_eq!(provider_strategy(Objective::Cost), "price");
}

#[test]
fn private_trust_keeps_teeml_models() {
    let ranked = rank(
        "summarize",
        &fallback_models(),
        Objective::Quality,
        TrustMode::Private,
        &vec![],
    );
    assert!(ranked.iter().all(|model| {
        let tier = model.verifiability.to_ascii_lowercase();
        tier == "teeml" || tier == "private"
    }));
    assert!(verify_tee(TrustMode::Private));
    assert!(!verify_tee(TrustMode::Standard));
}

#[test]
fn other_strategies_and_names() {
    assert_eq!(provider_strategy(Objective::Speed), "latency");
    assert_eq!(provider_strategy(Objective::Quality), "default");
    assert!(verify_tee(TrustMode::Verified));
    assert_eq!(trust_header(TrustMode::Private), "private");
    assert_eq!(trust_header(TrustMode::Verified), "verified");
    assert_eq!(trust_header(TrustMode::Standard), "standard");
}

#[test]
fn the_environment_is_trimmed_and_defaulted() {
    assert_eq!(base_url(&None), "https://router-api.0g.ai/v1");
    assert_eq!(base_url(&Some(s("  \u{3000}\t"))), "https://router-api.0g.ai/v1");
    assert_eq!(base_url(&Some(s("https://x/v1//"))), "https://x/v1");
    assert_eq!(models_url("https://x/v1"), "https://x/v1/models");
    assert_eq!(objective_from_env(&Some(s(" cost\n"))), Objective::Cost);
    assert_eq!(objective_from_env(&Some(s("speed"))), Objective::Speed);
    assert_eq!(objective_from_env(&Some(s("COST"))), Objective::Quality);
    assert_eq!(objective_from_env(&None), Objective::Quality);
    assert_eq!(trust_from_env(&Some(s("private"))), TrustMode::Private);
    assert_eq!(trust_from_env(&Some(s("\u{a0}verified"))), TrustMode::Verified);
    assert_eq!(trust_from_env(&Some(s("x"))), TrustMode::Standard);
}

#[test]
fn tasks_are_inferred_from_words() {
    assert_eq!(infer_task("Audit this SOLIDITY contract"), "code-security");
    assert_eq!(infer_task("请审计"), "code-security");
    assert_eq!(infer_task("Extract the fields"), "extraction");
    assert_eq!(infer_task("Summarise"), "summarization");
    assert_eq!(infer_task("use a tool"), "agent-tools");
    assert_eq!(infer_task("hello"), "general-reasoning");
    assert!(contains_any("abc", &["x", "bc"]));
    assert!(!contains_any("abc", &[]));
}

#[test]
fn scores_are_exact() {
    let models = fallback_models();
    // 50 + 25, and 1,048,576 of context in hundred-thousandths.
    assert_eq!(
        score(&models[0], "code-security", Objective::Quality, TrustMode::Standard, 0),
        7_500_000 + 1_048_576
    );
    // 50 + 25 + 2 * 4 - 100: TeeTLS is not TeeML.
    assert_eq!(
        score(&models[1], "agent-tools", Objective::Speed, TrustMode::Private, 0),
        -17
    );
    // 50 + 20 + 2 * 5 - 60.
    assert_eq!(
        score(&models[2], "extraction", Objective::Speed, TrustMode::Verified, 0),
        20
    );
    assert_eq!(score(&models[2], "x", Objective::Cost, TrustMode::Standard, -9), -9);
}

#[test]
fn the_context_counts_twelve_points_at_most() {
    let mut m = fallback_models().remove(0);
    m.context_length = 9_000_000;
    assert_eq!(score(&m, "x", Objective::Quality, TrustMode::Standard, 0), 5_000_000 + 1_200_000);
}

#[test]
fn equal_scores_keep_their_order() {
    assert_eq!(ranking(&vec![1, 5, 1, 7, 5]), vec![3, 1, 4, 0, 2]);
    assert_eq!(ranking(&vec![]), Vec::<usize>::new());
}

#[test]
fn a_trust_mode_that_nothing_satisfies_keeps_all() {
    let only_standard: Vec<OgModel> = vec![fallback_models().remove(2)];
    assert_eq!(eligible(&only_standard, TrustMode::Private), only_standard);
    assert_eq!(eligible(&fallback_models(), TrustMode::Verified).len(), 2);
    assert_eq!(eligible(&fallback_models(), TrustMode::Private).len(), 1);
}

#[test]
fn a_model_without_capabilities_is_general() {
    let mut m = fallback_models().remove(1);
    m.capabilities = vec![];
    assert_eq!(
        describe(&m),
        "capabilities=general; context=131072; providers=4; trust=TeeTLS; promptPrice=0.0000024; completionPrice=0.0000072"
    );
}

#[test]
fn a_cache_is_fresh_for_a_minute() {
    let models = fallback_models();
    assert_eq!(fresh_cache(Some(&models), 59), Some(fallback_models()));
    assert_eq!(fresh_cache(Some(&models), 60), None);
    assert_eq!(fresh_cache(None, 0), None);
}

#[test]
fn there_is_always_a_catalog() {
    let one = || vec![fallback_models().remove(1)];
    assert_eq!(load_catalog(Ok(one()), None), (one(), true));
    assert_eq!(load_catalog(Ok(vec![]), Some(one())), (fallback_models(), false));
    assert_eq!(load_catalog(Err(s("down")), Some(one())), (one(), false));
    assert_eq!(load_catalog(Err(s("down")), None), (fallback_models(), false));
}

fn raw(capabilities: Option<Json>) -> RawModel {
    RawModel {
        id: s("m"),
        name: None,
        context_length: None,
        provider_count: None,
        capabilities,
        supported_parameters: Some(vec![s("temperature")]),
        verifiability: None,
    }
}

#[test]
fn raw_models_are_normalized() {
    let m = normalize(&raw(None), s("0"), s("1"));
    assert_eq!(
        m,
        OgModel {
            id: s("m"),
            name: s("m"),
            context_length: 0,
            provider_count: 0,
            capabilities: vec![s("temperature")],
            verifiability: s("standard"),
            prompt_price: s("0"),
            completion_price: s("1"),
        }
    );
    let list = parse_json(r#"["code",3,"json"]"#);
    assert_eq!(normalize(&raw(list), s("0"), s("0")).capabilities, vec![s("code"), s("json")]);
    let map = parse_json(r#"{"tools":true,"vision":false,"json":true,"x":1}"#);
    assert_eq!(normalize(&raw(map), s("0"), s("0")).capabilities, vec![s("json"), s("tools")]);
    let null = parse_json("null");
    assert_eq!(normalize(&raw(null), s("0"), s("0")).capabilities, vec![s("temperature")]);
}

#[test]
fn models_without_an_id_are_left_out() {
    let mut nameless = raw(None);
    nameless.id = s("");
    let models = catalog_of(
        &vec![nameless, raw(None)],
        &vec![(s("1"), s("2")), (s("3"), s("4"))],
    );
    assert_eq!(models.len(), 1);
    assert_eq!(models[0].prompt_price, "3");
}

#[test]
fn prices_are_strings_or_numbers() {
    assert_eq!(price_text(&parse_json("\"0.5\"")), Some(&s("0.5")));
    assert_eq!(price_text(&parse_json("12")), Some(&s("12")));
    assert_eq!(price_text(&parse_json("true")), None);
    assert_eq!(price_text(&None), None);
}
