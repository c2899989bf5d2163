use keel_dsh::bridge::{SessionEventData, TurnEndReason};
use keel_dsh::chat::LlmFailure;
use keel_dsh::drive::{begin_turn, end_turn, failed_turn, open_run, Action, Opening};
use keel_dsh::json::Json;
use keel_dsh::proto::{AgentEvent, DoneStatus, HarnessId, RunRequest};
use keel_dsh::table::Table;

fn s(text: &str) -> String {
    text.to_string()
}

fn request() -> RunRequest {
    RunRequest {
        prompt: s("fix it"),
        harness: None,
        model: None,
        reasoning: None,
        model_options: Table::new(),
        cwd: s("/work"),
        sandbox: s("WorkspaceWrite"),
        auto_approve: false,
        resume: None,
        attachments: 0,
    }
}

fn end(reason: TurnEndReason) -> SessionEventData {
    SessionEventData::TurnEnd { reason }
}

fn error(message: &str, code: &str) -> SessionEventData {
    end(TurnEndReason::Error { error: LlmFailure { message: s(message), code: s(code) } })
}

#[test]
fn sessions_are_created_or_resumed() {
    let mut r = request();
    assert_eq!(
        open_run(HarnessId::Dsh, &r, "u1"),
        Opening::Create {
            session_id: s("session-u1"),
            cwd: Some(s("/work")),
            model: s("deepseek-chat"),
        }
    );
    r.cwd = s("");
    assert_eq!(
        open_run(HarnessId::Og, &r, "u1"),
        Opening::Create { session_id: s("session-u1"), cwd: None, model: s("glm-5.2") }
    );
    r.resume = Some(s("session-u0"));
    r.model = Some(s("m"));
    assert_eq!(
        open_run(HarnessId::Og, &r, "u1"),
        Opening::Resume { session_id: s("session-u0"), model: s("m") }
    );
}

#[test]
fn a_turn_is_announced_then_forwarded_then_prompted() {
    let actions = begin_turn(HarnessId::Dsh, &request(), "S", "M", "https://r");
    assert!(matches!(
        actions.as_slice(),
        [
            Action::Send { event: AgentEvent::SessionStarted { harness: HarnessId::Dsh, model, cwd, session_id, assistant_message_id } },
            Action::Forward { session_id: forwarded },
            Action::Attend,
            Action::Prompt { text },
            Action::Wait,
        ] if model == "deepseek-chat" && cwd == "/work" && session_id == "S"
            && assistant_message_id == "M" && forwarded == "S" && text == "fix it"
    ));
}

#[test]
fn only_the_routed_loop_routes() {
    let mut r = request();
    r.model_options.insert(s("ogProviderSort"), Json::Text(s("price")));
    let routed = begin_turn(HarnessId::Og, &r, "S", "M", "https://r");
    assert_eq!(routed.len(), 6);
    assert!(matches!(
        &routed[0],
        Action::Route { session_id, overlay } if session_id == "S" && overlay.base_url == "https://r"
    ));
    let direct = begin_turn(HarnessId::Dsh, &r, "S", "M", "https://r");
    assert_eq!(direct.len(), 5);
    assert!(!direct.iter().any(|a| matches!(a, Action::Route { .. })));
}

#[test]
fn the_end_comes_last_and_after_everything_is_taken_back() {
    let actions = end_turn(&vec![end(TurnEndReason::Other)], "S");
    assert!(matches!(
        actions.as_slice(),
        [
            Action::Leave,
            Action::Flush,
            Action::Unforward { session_id: a },
            Action::Unroute { session_id: b },
            Action::Dispose,
            Action::Send { event: AgentEvent::Done { status: DoneStatus::Completed, error: None, session_id: Some(c) } },
        ] if a == "S" && b == "S" && c == "S"
    ));
}

fn done(log: Vec<SessionEventData>) -> AgentEvent {
    match end_turn(&log, "S").pop() {
        Some(Action::Send { event }) => event,
        _ => panic!("no end"),
    }
}

#[test]
fn the_last_turn_decides_the_status() {
    assert_eq!(
        done(vec![error("a", "X"), end(TurnEndReason::Aborted), SessionEventData::Other]),
        AgentEvent::Done {
            status: DoneStatus::Interrupted,
            error: None,
            session_id: Some(s("S")),
        }
    );
    assert_eq!(
        done(vec![end(TurnEndReason::Other), error("late", "TIMEOUT")]),
        AgentEvent::Done {
            status: DoneStatus::Errored,
            error: Some(s("late (TIMEOUT)")),
            session_id: Some(s("S")),
        }
    );
    assert_eq!(
        done(vec![]),
        AgentEvent::Done {
            status: DoneStatus::Completed,
            error: None,
            session_id: Some(s("S")),
        }
    );
}

#[test]
fn a_failed_turn_is_reported_whatever_followed() {
    assert_eq!(
        failed_turn(&vec![error("a", "X"), error("b", "Y"), end(TurnEndReason::Other)]),
        Some(s("b (Y)"))
    );
    assert_eq!(failed_turn(&vec![end(TurnEndReason::Aborted)]), None);
}
