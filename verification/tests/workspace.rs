use keel_dsh::chat::{FinishReason, StreamChunk};
use keel_dsh::cli::{
    command_base_url, command_result, failure_message, plan_command, printed, session_line,
    CommandPlan,
};
use keel_dsh::host::{
    begin_install, begin_progress, decision_report, decision_status, edge_url_from_env,
    end_install, engine_config_from_env, harness_from_env, ipc_port, is_stale_overflow,
    line_is_open, log_plan, log_setup, show_progress, window_config_from_env, DecisionMode,
    DecisionReport, EngineConfig, InstallStart, Launch, LayaInstallProgress, LayaStatus, LogPlan,
    Share,
};
use keel_dsh::proto::HarnessId;
use keel_dsh::table::Table;
use keel_dsh::text::{
    align_left, align_right, char_is_whitespace, str_contains, str_starts_with, take_chars,
    to_ascii_lowercase, to_decimal, trim, trim_end_char,
};

fn s(text: &str) -> String {
    text.to_string()
}

#[test]
fn blank_endpoints_are_the_local_one() {
    assert_eq!(edge_url_from_env(&None), "http://127.0.0.1:8787");
    assert_eq!(edge_url_from_env(&Some(s(" \t"))), "http://127.0.0.1:8787");
    assert_eq!(edge_url_from_env(&Some(s(" https://e "))), " https://e ");
}

#[test]
fn ports_are_parsed_or_defaulted() {
    assert_eq!(ipc_port(&None), 27655);
    for (text, port) in [
        ("80", 80),
        ("+80", 80),
        ("00080", 80),
        ("65535", 65535),
        ("0", 0),
        ("65536", 27655),
        ("99999999999999999999", 27655),
        ("", 27655),
        ("+", 27655),
        ("-1", 27655),
        (" 80", 27655),
    ] {
        assert_eq!(ipc_port(&Some(s(text))), port, "{text}");
        assert_eq!(text.parse::<u16>().unwrap_or(27655), port, "{text}");
    }
}

#[test]
fn harness_names_are_trimmed() {
    for (name, id) in [
        ("mock", HarnessId::Mock),
        (" codex ", HarnessId::Codex),
        ("cursor", HarnessId::Cursor),
        ("grok", HarnessId::Grok),
        ("hermes", HarnessId::Hermes),
        ("pi", HarnessId::Pi),
        ("dsh\n", HarnessId::Dsh),
        ("og", HarnessId::Og),
        ("Codex", HarnessId::ClaudeCode),
        ("", HarnessId::ClaudeCode),
    ] {
        assert_eq!(harness_from_env(&Some(s(name))), id);
    }
    assert_eq!(harness_from_env(&None), HarnessId::ClaudeCode);
}

#[test]
fn the_engine_is_local_in_every_environment() {
    let bare = EngineConfig {
        data_dir: s("/d"),
        edge_url: s("http://127.0.0.1:8787"),
        ipc_port: 27655,
        default_harness: HarnessId::ClaudeCode,
        org_id: None,
        workos_client_id: None,
        edge_token: None,
    };
    assert_eq!(engine_config_from_env(s("/d"), &Table::new()), bare);
    let mut env = Table::new();
    for (name, value) in [
        ("KEEL_ORG_ID", "o"),
        ("KEEL_WORKOS_CLIENT_ID", "c"),
        ("KEEL_EDGE_TOKEN", "t"),
        ("KEEL_EDGE_URL", "https://e"),
        ("KEEL_IPC_PORT", "99"),
        ("KEEL_HARNESS", "og"),
    ] {
        env.insert(s(name), s(value));
    }
    let config = engine_config_from_env(s("/d"), &env);
    assert_eq!((config.org_id, config.workos_client_id, config.edge_token), (None, None, None));
    assert_eq!((config.edge_url.as_str(), config.ipc_port), ("https://e", 99));
    assert_eq!(config.default_harness, HarnessId::Og);
    let window = window_config_from_env(s("/d"), &env);
    assert_eq!(window.default_harness, HarnessId::ClaudeCode);
    assert_eq!(window.ipc_port, 99);
}

#[test]
fn only_long_launches_keep_a_log() {
    assert_eq!(log_setup(Launch::Headed), ("info,loro_internal=warn,loro=warn", Some("headed")));
    assert_eq!(
        log_setup(Launch::Headless),
        ("info,loro_internal=warn,loro=warn", Some("headless"))
    );
    assert_eq!(log_setup(Launch::Command), ("warn", None));
}

#[test]
fn a_live_log_is_left_alone() {
    assert_eq!(
        log_plan("headed", true, true, 4242),
        LogPlan::Overflow { name: s("keel-headed.4242.log") }
    );
    assert_eq!(
        log_plan("headed", true, false, 4242),
        LogPlan::Own { rotate_to: Some(s("keel-headed.log.old")), name: s("keel-headed.log") }
    );
    assert_eq!(
        log_plan("headed", false, false, 4242),
        LogPlan::Own { rotate_to: None, name: s("keel-headed.log") }
    );
}

#[test]
fn the_sweep_takes_old_overflow_files_alone() {
    let old = Some((604_800, 1));
    assert!(is_stale_overflow("keel-headed.4242.log", "headed", old));
    assert!(!is_stale_overflow("keel-headed..log", "headed", old));
    assert!(!is_stale_overflow("keel-headed.4242.log", "headed", Some((604_800, 0))));
    assert!(!is_stale_overflow("keel-headed.4242.log", "headed", None));
    assert!(!is_stale_overflow("keel-headed.log", "headed", old));
    assert!(!is_stale_overflow("keel-headed.log.old", "headed", old));
    assert!(!is_stale_overflow("keel-headed.42x.log", "headed", old));
    assert!(!is_stale_overflow("keel-headless.42.log", "headed", old));
}

fn laya(installed: bool, downloadable: bool) -> LayaStatus {
    LayaStatus { installed, downloadable, message: s("why") }
}

#[test]
fn installations_begin_as_their_status_says() {
    assert_eq!(
        begin_install(&laya(false, false), "/d"),
        InstallStart::Refused { message: s("Laya cannot be installed here: why") }
    );
    assert_eq!(
        begin_install(&laya(true, false), "/d"),
        InstallStart::Present { line: s("Laya model is already available; no download needed.") }
    );
    assert_eq!(
        begin_install(&laya(false, true), "/d"),
        InstallStart::Download { line: s("Downloading the pinned Laya model to /d") }
    );
    assert_eq!(end_install(true), Ok("Laya model verified and installed."));
    assert_eq!(
        end_install(false),
        Err("Laya downloaded, but the worker or model is not ready for decisions")
    );
}

fn step(downloaded_bytes: u64, total_bytes: u64) -> LayaInstallProgress {
    LayaInstallProgress::Downloading { downloaded_bytes, total_bytes }
}

#[test]
fn progress_is_drawn_once_per_percent() {
    let mut shown = begin_progress();
    assert!(!line_is_open(&shown));
    assert_eq!(show_progress(&mut shown, &step(1, 0)), "");
    assert_eq!(
        show_progress(&mut shown, &step(51_000_000, 680_000_000)),
        "\rLaya [#-------------------]   7% (51/680 MB)"
    );
    assert_eq!(show_progress(&mut shown, &step(51_000_001, 680_000_000)), "");
    assert!(line_is_open(&shown));
    assert_eq!(
        show_progress(&mut shown, &step(680_000_000, 680_000_000)),
        "\rLaya [####################] 100% (680/680 MB)"
    );
    assert_eq!(
        show_progress(&mut shown, &step(1_360_000_000, 680_000_000)),
        "\rLaya [####################] 200% (1360/680 MB)"
    );
    assert_eq!(show_progress(&mut shown, &LayaInstallProgress::Other), "");
    assert_eq!(
        show_progress(&mut shown, &LayaInstallProgress::Verifying),
        "\nDownload complete. Verifying model files…\n"
    );
    assert!(!line_is_open(&shown));
    let mut shown = begin_progress();
    show_progress(&mut shown, &step(u64::MAX, 1_000));
    assert_eq!(shown.last_percent, Some(u64::MAX / 1_000));
}

#[test]
fn the_status_names_what_a_task_gets() {
    let lines = decision_status(DecisionMode::Laya, "Laya", &laya(true, false), false);
    assert_eq!(lines.len(), 7);
    assert_eq!(lines[0], "Selected decision backend: Laya");
    assert_eq!(lines[1], "Available intake backend (local checks): Laya (local)");
    assert_eq!(lines[2], "Laya: why");
    assert_eq!(lines[3], "Jev: protected local credential unavailable");
    let lines = decision_status(DecisionMode::Jev, "Jev", &laya(false, false), true);
    assert_eq!(lines[1], "Available intake backend (local checks): Jev (direct TypeSafe)");
    assert_eq!(lines[3], "Jev: protected local credential available");
    for (mode, jev) in [
        (DecisionMode::Laya, true),
        (DecisionMode::Jev, false),
        (DecisionMode::Other, true),
    ] {
        let lines = decision_status(mode, "x", &laya(false, false), jev);
        assert_eq!(lines[1], "Available intake backend (local checks): Normal harness");
    }
}

fn share(count: u64, percent: &str) -> Share {
    Share { count, percent: s(percent) }
}

#[test]
fn the_report_lists_shares_and_counts() {
    let mut report = DecisionReport {
        total: 12,
        chats: 3,
        selected: share(9, "75"),
        abstained: share(3, "25"),
        with_fallback: share(0, "0"),
        with_outcome: share(12, "100"),
        by_backend: vec![(s("jev"), 4), (s("laya"), 8)],
        by_stage: vec![],
        by_validation: vec![(s("accepted"), 12)],
        mean_confidence: Some(s("0.75")),
    };
    assert_eq!(
        decision_report(&report),
        vec![
            s("Decision receipts: 12 across 3 chats"),
            s("  selected       9  (75%)"),
            s("  abstained      3  (25%)"),
            s("  fallback       0  (0%)"),
            s("  outcome       12  (100%)"),
            s("backend    jev 4, laya 8"),
            s("stage      "),
            s("validation accepted 12"),
            s("mean confidence 0.75"),
        ]
    );
    report.mean_confidence = None;
    assert_eq!(decision_report(&report)[8], "mean confidence not reported");
    report.total = 0;
    assert_eq!(decision_report(&report), vec![s("No decision receipts recorded yet.")]);
}

#[test]
fn commands_are_planned() {
    assert_eq!(plan_command(true, &Some(s("x"))), CommandPlan::List);
    assert_eq!(plan_command(false, &Some(s("x"))), CommandPlan::Run { task: s("x") });
    assert_eq!(
        plan_command(false, &None),
        CommandPlan::NoTask { message: s("no task given (pass a task string, or --list)") }
    );
    assert_eq!(command_base_url(&Some(s("https://f/")), &Some(s("https://e"))), "https://f");
    assert_eq!(command_base_url(&None, &Some(s("https://e//"))), "https://e");
    assert_eq!(command_base_url(&None, &None), "https://api.deepseek.com");
    assert_eq!(session_line("s1", &Some(s("/w"))), "s1\t/w");
    assert_eq!(session_line("s1", &None), "s1\t-");
    assert_eq!(failure_message("no (AUTH)"), "task failed: no (AUTH)");
    assert_eq!(printed(&StreamChunk::TextDelta { index: 0, text: s("hi") }), "hi");
    assert_eq!(printed(&StreamChunk::Finish { reason: FinishReason::Stop }), "\n");
    assert_eq!(printed(&StreamChunk::ReasoningDelta { index: 0, text: s("hm") }), "");
}

#[test]
fn a_flush_error_outranks_a_failed_turn() {
    assert_eq!(command_result(Some(s("no (AUTH)")), Err(s("disk full"))), Err(s("disk full")));
    assert_eq!(command_result(None, Err(s("disk full"))), Err(s("disk full")));
    assert_eq!(command_result(Some(s("no (AUTH)")), Ok(())), Err(s("task failed: no (AUTH)")));
    assert_eq!(command_result(None, Ok(())), Ok(()));
}

#[test]
fn white_space_is_unicode_white_space() {
    for n in 0u32..=0x10_FFFF {
        if let Some(c) = char::from_u32(n) {
            assert_eq!(char_is_whitespace(c), c.is_whitespace(), "{n:x}");
        }
    }
}

#[test]
fn text_behaves_as_written() {
    assert_eq!(trim("\u{2003} a b \n"), "a b");
    assert_eq!(trim(" \t "), "");
    assert_eq!(trim_end_char("a//", '/'), "a");
    assert_eq!(to_ascii_lowercase("AÉz"), "aÉz");
    assert!(str_contains("hello", "ell"));
    assert!(str_contains("hello", ""));
    assert!(!str_contains("hello", "elo"));
    assert!(str_starts_with("hello", "he"));
    assert!(!str_starts_with("h", "he"));
    assert_eq!(take_chars("héllo", 2), "hé");
    assert_eq!(to_decimal(0), "0");
    assert_eq!(to_decimal(u64::MAX), u64::MAX.to_string());
    assert_eq!(align_right("7", 3), "  7");
    assert_eq!(align_right("1234", 3), "1234");
    assert_eq!(align_left("ab", 4), "ab  ");
}

#[test]
fn tables_hold_one_value_per_key() {
    let mut t = Table::new();
    t.insert(s("a"), 1);
    t.insert(s("b"), 2);
    t.insert(s("a"), 3);
    assert_eq!(t.get("a"), Some(&3));
    assert_eq!(t.keys(), vec!["a", "b"]);
    t.remove("a");
    t.remove("z");
    assert_eq!(t.get("a"), None);
    assert_eq!(t.keys(), vec!["b"]);
}
