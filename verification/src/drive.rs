//! One run of a loop, from the opening of its session to its last event. The host performs
//! the actions in order; which they are is decided here.

use crate::adapter::{OverlayView, RequestOverlay};
use crate::bridge::{
    failure_line, failure_text, log_views, overlay_for, overlay_of, EndView, LogView,
    SessionEventData, TurnEndReason,
};
use crate::chat::ErrorView;
use crate::proto::{AgentEvent, AgentView, DoneStatus, HarnessId, RunRequest};
use crate::text::opt;
use vstd::prelude::*;
use vstd::string::*;

verus! {

/// How the session of a run comes about.
#[derive(Debug, PartialEq)]
pub enum Opening {
    /// Take up the session again.
    Resume { session_id: String, model: String },
    /// Start a session. `cwd` is where it works, where the request says so.
    Create { session_id: String, cwd: Option<String>, model: String },
}

/// The mathematical value of an [`Opening`].
pub enum OpeningView {
    Resume { session_id: Seq<char>, model: Seq<char> },
    Create { session_id: Seq<char>, cwd: Option<Seq<char>>, model: Seq<char> },
}

impl View for Opening {
    type V = OpeningView;

    open spec fn view(&self) -> OpeningView {
        match self {
            Opening::Resume { session_id, model } => OpeningView::Resume {
                session_id: session_id@,
                model: model@,
            },
            Opening::Create { session_id, cwd, model } => OpeningView::Create {
                session_id: session_id@,
                cwd: opt(*cwd),
                model: model@,
            },
        }
    }
}

/// The model of a run: the request's own, or the loop's default.
pub open spec fn model_of(harness: HarnessId, model: Option<Seq<char>>) -> Seq<char> {
    match model {
        Some(model) => model,
        None => if harness == HarnessId::Og {
            "glm-5.2"@
        } else {
            "deepseek-chat"@
        },
    }
}

/// The model of a run.
pub fn run_model(harness: HarnessId, request: &RunRequest) -> (r: String)
    ensures
        r@ == model_of(harness, opt(request.model)),
{
    match &request.model {
        Some(model) => model.clone(),
        None => match harness {
            HarnessId::Og => "glm-5.2".to_owned(),
            _ => "deepseek-chat".to_owned(),
        },
    }
}

/// How a run's session comes about. `fresh` names a session that is not there yet.
pub open spec fn opening_of(
    harness: HarnessId,
    model: Option<Seq<char>>,
    resume: Option<Seq<char>>,
    cwd: Seq<char>,
    fresh: Seq<char>,
) -> OpeningView {
    match resume {
        Some(id) => OpeningView::Resume { session_id: id, model: model_of(harness, model) },
        None => OpeningView::Create {
            session_id: "session-"@ + fresh,
            cwd: if cwd.len() == 0 {
                None
            } else {
                Some(cwd)
            },
            model: model_of(harness, model),
        },
    }
}

/// How a run's session comes about.
pub fn open_run(harness: HarnessId, request: &RunRequest, fresh: &str) -> (r: Opening)
    ensures
        r@ == opening_of(
            harness,
            opt(request.model),
            opt(request.resume),
            request.cwd@,
            fresh@,
        ),
{
    let model = run_model(harness, request);
    match &request.resume {
        Some(id) => Opening::Resume { session_id: id.clone(), model },
        None => {
            let mut session_id = "session-".to_owned();
            session_id.append(fresh);
            let cwd = if request.cwd.as_str().is_empty() {
                None
            } else {
                Some(request.cwd.clone())
            };
            Opening::Create { session_id, cwd, model }
        },
    }
}

/// One thing for the host to do.
pub enum Action {
    /// Route the session's calls.
    Route { session_id: String, overlay: RequestOverlay },
    /// Tell the engine.
    Send { event: AgentEvent },
    /// Forward the session's events to the engine from here on.
    Forward { session_id: String },
    /// Deliver steering messages and an interrupt beside the turn from here on.
    Attend,
    /// Put the user's message to the agent.
    Prompt { text: String },
    /// Wait until the agent is idle.
    Wait,
    /// Deliver steering messages and interrupts no more.
    Leave,
    /// Make the session durable; a failure is logged and changes nothing.
    Flush,
    /// Forward the session's events no more.
    Unforward { session_id: String },
    /// Route the session's calls no more.
    Unroute { session_id: String },
    /// Let the agent go.
    Dispose,
}

/// The mathematical value of an [`Action`].
pub enum ActionView {
    Route { session_id: Seq<char>, overlay: OverlayView },
    Send { event: AgentView },
    Forward { session_id: Seq<char> },
    Attend,
    Prompt { text: Seq<char> },
    Wait,
    Leave,
    Flush,
    Unforward { session_id: Seq<char> },
    Unroute { session_id: Seq<char> },
    Dispose,
}

impl View for Action {
    type V = ActionView;

    open spec fn view(&self) -> ActionView {
        match self {
            Action::Route { session_id, overlay } => ActionView::Route {
                session_id: session_id@,
                overlay: overlay@,
            },
            Action::Send { event } => ActionView::Send { event: event@ },
            Action::Forward { session_id } => ActionView::Forward { session_id: session_id@ },
            Action::Attend => ActionView::Attend,
            Action::Prompt { text } => ActionView::Prompt { text: text@ },
            Action::Wait => ActionView::Wait,
            Action::Leave => ActionView::Leave,
            Action::Flush => ActionView::Flush,
            Action::Unforward { session_id } => ActionView::Unforward { session_id: session_id@ },
            Action::Unroute { session_id } => ActionView::Unroute { session_id: session_id@ },
            Action::Dispose => ActionView::Dispose,
        }
    }
}

/// The mathematical values of a list of actions.
pub open spec fn action_views(s: Seq<Action>) -> Seq<ActionView> {
    s.map_values(|a: Action| a@)
}

/// What a run is routed with. Routing changes the endpoint, so only the routed loop may.
pub open spec fn route_of(harness: HarnessId, request: RunRequest, og_base: Seq<char>) -> Option<
    OverlayView,
> {
    if harness == HarnessId::Og {
        overlay_of(request.model_options@, og_base)
    } else {
        None
    }
}

/// The first event of a run.
pub open spec fn started_view(
    harness: HarnessId,
    request: RunRequest,
    session_id: Seq<char>,
    message_id: Seq<char>,
) -> AgentView {
    AgentView::SessionStarted {
        harness,
        model: model_of(harness, opt(request.model)),
        cwd: request.cwd@,
        session_id,
        assistant_message_id: message_id,
    }
}

/// What there is to do once the session is open: route it, announce it, forward its events
/// before any of them can be committed, and only then put the prompt.
pub open spec fn turn_of(
    harness: HarnessId,
    request: RunRequest,
    session_id: Seq<char>,
    message_id: Seq<char>,
    og_base: Seq<char>,
) -> Seq<ActionView> {
    let route = match route_of(harness, request, og_base) {
        Some(overlay) => seq![ActionView::Route { session_id, overlay }],
        None => Seq::empty(),
    };
    route + seq![
        ActionView::Send { event: started_view(harness, request, session_id, message_id) },
        ActionView::Forward { session_id },
        ActionView::Attend,
        ActionView::Prompt { text: request.prompt@ },
        ActionView::Wait,
    ]
}

/// What there is to do once the session is open.
pub fn begin_turn(
    harness: HarnessId,
    request: &RunRequest,
    session_id: &str,
    message_id: &str,
    og_base: &str,
) -> (r: Vec<Action>)
    ensures
        action_views(r@) == turn_of(harness, *request, session_id@, message_id@, og_base@),
{
    let mut out: Vec<Action> = Vec::new();
    if let HarnessId::Og = harness {
        if let Some(overlay) = overlay_for(request, og_base) {
            out.push(Action::Route { session_id: session_id.to_owned(), overlay });
        }
    }
    out.push(
        Action::Send {
            event: AgentEvent::SessionStarted {
                harness,
                model: run_model(harness, request),
                cwd: request.cwd.clone(),
                session_id: session_id.to_owned(),
                assistant_message_id: message_id.to_owned(),
            },
        },
    );
    out.push(Action::Forward { session_id: session_id.to_owned() });
    out.push(Action::Attend);
    out.push(Action::Prompt { text: request.prompt.clone() });
    out.push(Action::Wait);
    assert(action_views(out@) =~= turn_of(
        harness,
        *request,
        session_id@,
        message_id@,
        og_base@,
    ));
    out
}

/// How the last turn of a session ended.
pub open spec fn last_end(log: Seq<LogView>) -> Option<EndView>
    decreases log.len(),
{
    if log.len() == 0 {
        None
    } else {
        match log.last() {
            LogView::TurnEnd { reason } => Some(reason),
            _ => last_end(log.drop_last()),
        }
    }
}

/// The last event of a run.
pub open spec fn done_view(end: Option<EndView>, session_id: Seq<char>) -> AgentView {
    match end {
        Some(EndView::Aborted) => AgentView::Done {
            status: DoneStatus::Interrupted,
            error: None,
            session_id: Some(session_id),
        },
        Some(EndView::Error { error }) => AgentView::Done {
            status: DoneStatus::Errored,
            error: Some(failure_line(error)),
            session_id: Some(session_id),
        },
        _ => AgentView::Done {
            status: DoneStatus::Completed,
            error: None,
            session_id: Some(session_id),
        },
    }
}

/// What there is to do once the agent is idle: make the session durable, take the forwarding
/// and the routing back, let the agent go, and tell the end last.
pub open spec fn close_of(end: Option<EndView>, session_id: Seq<char>) -> Seq<ActionView> {
    seq![
        ActionView::Leave,
        ActionView::Flush,
        ActionView::Unforward { session_id },
        ActionView::Unroute { session_id },
        ActionView::Dispose,
        ActionView::Send { event: done_view(end, session_id) },
    ]
}

/// The last event of a run, by the session's log.
pub fn done_event(log: &Vec<SessionEventData>, session_id: &str) -> (r: AgentEvent)
    ensures
        r@ == done_view(last_end(log_views(log@)), session_id@),
{
    let ghost all = log_views(log@);
    let mut i: usize = log.len();
    assert(all.take(i as int) =~= all);
    while i > 0
        invariant
            i <= log@.len(),
            all == log_views(log@),
            last_end(all) == last_end(all.take(i as int)),
        decreases i,
    {
        assert(all.take(i as int).last() == log@[i - 1]@);
        assert(all.take(i as int).drop_last() =~= all.take(i - 1));
        if let SessionEventData::TurnEnd { reason } = &log[i - 1] {
            return match reason {
                TurnEndReason::Aborted => AgentEvent::Done {
                    status: DoneStatus::Interrupted,
                    error: None,
                    session_id: Some(session_id.to_owned()),
                },
                TurnEndReason::Error { error } => AgentEvent::Done {
                    status: DoneStatus::Errored,
                    error: Some(failure_text(error)),
                    session_id: Some(session_id.to_owned()),
                },
                TurnEndReason::Other => AgentEvent::Done {
                    status: DoneStatus::Completed,
                    error: None,
                    session_id: Some(session_id.to_owned()),
                },
            };
        }
        i = i - 1;
    }
    AgentEvent::Done {
        status: DoneStatus::Completed,
        error: None,
        session_id: Some(session_id.to_owned()),
    }
}

/// What there is to do once the agent is idle.
pub fn end_turn(log: &Vec<SessionEventData>, session_id: &str) -> (r: Vec<Action>)
    ensures
        action_views(r@) == close_of(last_end(log_views(log@)), session_id@),
{
    let done = done_event(log, session_id);
    let mut out: Vec<Action> = Vec::new();
    out.push(Action::Leave);
    out.push(Action::Flush);
    out.push(Action::Unforward { session_id: session_id.to_owned() });
    out.push(Action::Unroute { session_id: session_id.to_owned() });
    out.push(Action::Dispose);
    out.push(Action::Send { event: done });
    assert(action_views(out@) =~= close_of(last_end(log_views(log@)), session_id@));
    out
}

/// The message of a failed turn: that of the last turn that ended in an error, whatever
/// followed it.
pub open spec fn last_failure(log: Seq<LogView>) -> Option<Seq<char>>
    decreases log.len(),
{
    if log.len() == 0 {
        None
    } else {
        match log.last() {
            LogView::TurnEnd { reason: EndView::Error { error } } => Some(failure_line(error)),
            _ => last_failure(log.drop_last()),
        }
    }
}

/// The message of a failed turn.
pub fn failed_turn(log: &Vec<SessionEventData>) -> (r: Option<String>)
    ensures
        opt(r) == last_failure(log_views(log@)),
{
    let ghost all = log_views(log@);
    let mut i: usize = log.len();
    assert(all.take(i as int) =~= all);
    while i > 0
        invariant
            i <= log@.len(),
            all == log_views(log@),
            last_failure(all) == last_failure(all.take(i as int)),
        decreases i,
    {
        assert(all.take(i as int).last() == log@[i - 1]@);
        assert(all.take(i as int).drop_last() =~= all.take(i - 1));
        if let SessionEventData::TurnEnd { reason } = &log[i - 1] {
            if let TurnEndReason::Error { error } = reason {
                return Some(failure_text(error));
            }
        }
        i = i - 1;
    }
    None
}

/// What the host keeps for its sessions: which are routed and how, and which are forwarded.
pub struct HostState {
    pub overlays: Map<Seq<char>, OverlayView>,
    pub forwarded: Set<Seq<char>>,
}

/// What an action does to what the host keeps.
pub open spec fn performed(host: HostState, action: ActionView) -> HostState {
    match action {
        ActionView::Route { session_id, overlay } => HostState {
            overlays: host.overlays.insert(session_id, overlay),
            ..host
        },
        ActionView::Unroute { session_id } => HostState {
            overlays: host.overlays.remove(session_id),
            ..host
        },
        ActionView::Forward { session_id } => HostState {
            forwarded: host.forwarded.insert(session_id),
            ..host
        },
        ActionView::Unforward { session_id } => HostState {
            forwarded: host.forwarded.remove(session_id),
            ..host
        },
        _ => host,
    }
}

/// What a list of actions does to what the host keeps.
pub open spec fn all_performed(host: HostState, actions: Seq<ActionView>) -> HostState
    decreases actions.len(),
{
    if actions.len() == 0 {
        host
    } else {
        performed(all_performed(host, actions.drop_last()), actions.last())
    }
}

proof fn lemma_performed_push(host: HostState, actions: Seq<ActionView>, a: ActionView)
    ensures
        all_performed(host, actions.push(a)) == performed(all_performed(host, actions), a),
{
    assert(actions.push(a).drop_last() =~= actions);
}

/// A run leaves nothing behind: once its turn is closed its session is neither routed nor
/// forwarded, and no other session was touched.
pub proof fn law_a_run_leaves_nothing_behind(
    host: HostState,
    harness: HarnessId,
    request: RunRequest,
    session_id: Seq<char>,
    message_id: Seq<char>,
    og_base: Seq<char>,
    end: Option<EndView>,
)
    ensures
        ({
            let open = all_performed(
                host,
                turn_of(harness, request, session_id, message_id, og_base),
            );
            let closed = all_performed(open, close_of(end, session_id));
            &&& open.forwarded == host.forwarded.insert(session_id)
            &&& closed.overlays == host.overlays.remove(session_id)
            &&& closed.forwarded == host.forwarded.remove(session_id)
        }),
{
    let route = match route_of(harness, request, og_base) {
        Some(overlay) => seq![ActionView::Route { session_id, overlay }],
        None => Seq::<ActionView>::empty(),
    };
    let routed = all_performed(host, route);
    if route.len() > 0 {
        assert(route.drop_last() =~= Seq::<ActionView>::empty());
        assert(routed == performed(all_performed(host, route.drop_last()), route.last()));
    }
    let a1 = route.push(
        ActionView::Send { event: started_view(harness, request, session_id, message_id) },
    );
    let a2 = a1.push(ActionView::Forward { session_id });
    let a3 = a2.push(ActionView::Attend);
    let a4 = a3.push(ActionView::Prompt { text: request.prompt@ });
    let a5 = a4.push(ActionView::Wait);
    lemma_performed_push(
        host,
        route,
        ActionView::Send { event: started_view(harness, request, session_id, message_id) },
    );
    lemma_performed_push(host, a1, ActionView::Forward { session_id });
    lemma_performed_push(host, a2, ActionView::Attend);
    lemma_performed_push(host, a3, ActionView::Prompt { text: request.prompt@ });
    lemma_performed_push(host, a4, ActionView::Wait);
    assert(turn_of(harness, request, session_id, message_id, og_base) =~= a5);
    let open = all_performed(host, a5);
    let none = Seq::<ActionView>::empty();
    let b1 = none.push(ActionView::Leave);
    let b2 = b1.push(ActionView::Flush);
    let b3 = b2.push(ActionView::Unforward { session_id });
    let b4 = b3.push(ActionView::Unroute { session_id });
    let b5 = b4.push(ActionView::Dispose);
    let b6 = b5.push(ActionView::Send { event: done_view(end, session_id) });
    lemma_performed_push(open, none, ActionView::Leave);
    lemma_performed_push(open, b1, ActionView::Flush);
    lemma_performed_push(open, b2, ActionView::Unforward { session_id });
    lemma_performed_push(open, b3, ActionView::Unroute { session_id });
    lemma_performed_push(open, b4, ActionView::Dispose);
    lemma_performed_push(open, b5, ActionView::Send { event: done_view(end, session_id) });
    assert(close_of(end, session_id) =~= b6);
    let closed = all_performed(open, b6);
    assert(closed.overlays =~= host.overlays.remove(session_id));
    assert(closed.forwarded =~= host.forwarded.remove(session_id));
}

/// The events of a session are forwarded before the prompt is put, and the start of the
/// session is told before they are.
pub proof fn law_forwarding_precedes_the_prompt(
    harness: HarnessId,
    request: RunRequest,
    session_id: Seq<char>,
    message_id: Seq<char>,
    og_base: Seq<char>,
)
    ensures
        ({
            let actions = turn_of(harness, request, session_id, message_id, og_base);
            let n = actions.len() as int;
            &&& actions[n - 5] is Send
            &&& actions[n - 5]->Send_event is SessionStarted
            &&& actions[n - 4] is Forward
            &&& actions[n - 2] is Prompt
            &&& forall|k: int|
                0 <= k < n && ((#[trigger] actions[k]) is Send || actions[k] is Prompt
                    || actions[k] is Forward) ==> k >= n - 5
        }),
{
}

/// The end of a run is told once, and last.
pub proof fn law_the_end_is_told_last(end: Option<EndView>, session_id: Seq<char>)
    ensures
        ({
            let actions = close_of(end, session_id);
            &&& actions.last() is Send
            &&& actions.last()->Send_event is Done
            &&& forall|k: int|
                0 <= k < actions.len() - 1 ==> !((#[trigger] actions[k]) is Send)
        }),
{
}

/// Only the routed loop routes: a run of any other keeps its endpoint and credential, whatever
/// the request's options say.
pub proof fn law_only_the_routed_loop_routes(
    harness: HarnessId,
    request: RunRequest,
    session_id: Seq<char>,
    message_id: Seq<char>,
    og_base: Seq<char>,
)
    requires
        harness != HarnessId::Og,
    ensures
        ({
            let actions = turn_of(harness, request, session_id, message_id, og_base);
            forall|k: int| 0 <= k < actions.len() ==> !((#[trigger] actions[k]) is Route)
        }),
{
}

/// A run that resumes the session that an earlier run's end named takes up that session.
pub proof fn law_resume_returns_to_the_session(
    harness: HarnessId,
    model: Option<Seq<char>>,
    cwd: Seq<char>,
    fresh: Seq<char>,
    end: Option<EndView>,
    session_id: Seq<char>,
)
    ensures
        ({
            let resumed = opening_of(
                harness,
                model,
                done_view(end, session_id)->Done_session_id,
                cwd,
                fresh,
            );
            resumed == (OpeningView::Resume { session_id, model: model_of(harness, model) })
        }),
{
}

/// A run ends with an error message exactly where its status says so.
pub proof fn law_done_carries_its_error(end: Option<EndView>, session_id: Seq<char>)
    ensures
        ({
            let done = done_view(end, session_id);
            done->Done_status == DoneStatus::Errored <==> done->Done_error is Some
        }),
{
}

/// A session whose last turn ended in an error has a failed turn to report, the same one.
pub proof fn law_last_error_is_reported(log: Seq<LogView>)
    ensures
        last_end(log) matches Some(EndView::Error { error }) ==> last_failure(log) == Some(
            failure_line(error),
        ),
    decreases log.len(),
{
    if log.len() > 0 {
        if !(log.last() is TurnEnd) {
            law_last_error_is_reported(log.drop_last());
        }
    }
}

/// A run uses the model that its request names, on every loop: its session is opened with that
/// model, whether it is created or taken up again, and the start of the session names it. Only a
/// request without a model gets the loop's own.
pub proof fn law_the_named_model_is_used(
    harness: HarnessId,
    request: RunRequest,
    fresh: Seq<char>,
    session_id: Seq<char>,
    message_id: Seq<char>,
    og_base: Seq<char>,
)
    ensures
        ({
            let opened = match opening_of(
                harness,
                opt(request.model),
                opt(request.resume),
                request.cwd@,
                fresh,
            ) {
                OpeningView::Resume { session_id, model } => model,
                OpeningView::Create { session_id, cwd, model } => model,
            };
            let actions = turn_of(harness, request, session_id, message_id, og_base);
            let told = actions[actions.len() - 5]->Send_event->SessionStarted_model;
            &&& told == opened
            &&& request.model matches Some(model) ==> opened == model@
            &&& request.model is None && harness == HarnessId::Og ==> opened == "glm-5.2"@
            &&& request.model is None && harness != HarnessId::Og ==> opened == "deepseek-chat"@
        }),
{
}

/// A session that a request names is taken up again under its own id; otherwise a fresh one is
/// created, which works where the request says so.
pub proof fn law_sessions_are_resumed_or_created(
    harness: HarnessId,
    model: Option<Seq<char>>,
    resume: Option<Seq<char>>,
    cwd: Seq<char>,
    fresh: Seq<char>,
)
    ensures
        match opening_of(harness, model, resume, cwd, fresh) {
            OpeningView::Resume { session_id, model } => resume == Some(session_id),
            OpeningView::Create { session_id, cwd: place, model } => {
                &&& resume is None
                &&& session_id == "session-"@ + fresh
                &&& place is Some <==> cwd.len() > 0
                &&& place matches Some(place) ==> place == cwd
            },
        },
{
}

/// A turn is what its request says: the start of the session tells the harness, the directory,
/// and the ids as they are, the prompt is put word for word, the session that is forwarded is
/// the one that was opened, and the host waits for the end.
pub proof fn law_turns_are_put_as_requested(
    harness: HarnessId,
    request: RunRequest,
    session_id: Seq<char>,
    message_id: Seq<char>,
    og_base: Seq<char>,
)
    ensures
        ({
            let actions = turn_of(harness, request, session_id, message_id, og_base);
            let n = actions.len() as int;
            let started = actions[n - 5]->Send_event;
            &&& started->SessionStarted_harness == harness
            &&& started->SessionStarted_cwd == request.cwd@
            &&& started->SessionStarted_session_id == session_id
            &&& started->SessionStarted_assistant_message_id == message_id
            &&& actions[n - 4] == (ActionView::Forward { session_id })
            &&& actions[n - 3] is Attend
            &&& actions[n - 2] == (ActionView::Prompt { text: request.prompt@ })
            &&& actions[n - 1] is Wait
            &&& n == 5 || (n == 6 && actions[0] is Route && actions[0]->Route_session_id
                == session_id)
        }),
{
}

/// The routed loop routes a turn exactly where its request names an order of providers, and
/// then with what that request's options stand for.
pub proof fn law_the_routed_loop_routes_what_is_asked(
    request: RunRequest,
    session_id: Seq<char>,
    message_id: Seq<char>,
    og_base: Seq<char>,
)
    ensures
        ({
            let actions = turn_of(HarnessId::Og, request, session_id, message_id, og_base);
            match overlay_of(request.model_options@, og_base) {
                Some(overlay) => actions[0] == (ActionView::Route { session_id, overlay }),
                None => !(actions[0] is Route),
            }
        }),
{
}

/// How a run ends is how the last turn of its session ended: an abort is an interruption, an
/// error is an error with its message and code, anything else completes. The end names the
/// session.
pub proof fn law_the_last_turn_decides_the_end(
    log: Seq<LogView>,
    rest: Seq<LogView>,
    reason: EndView,
    session_id: Seq<char>,
)
    requires
        forall|i: int| 0 <= i < rest.len() ==> !((#[trigger] rest[i]) is TurnEnd),
    ensures
        done_view(last_end(log.push(LogView::TurnEnd { reason }) + rest), session_id) == (
        AgentView::Done {
            status: match reason {
                EndView::Aborted => DoneStatus::Interrupted,
                EndView::Error { error } => DoneStatus::Errored,
                EndView::Other => DoneStatus::Completed,
            },
            error: match reason {
                EndView::Error { error } => Some(error.message + " ("@ + error.code + ")"@),
                _ => None,
            },
            session_id: Some(session_id),
        }),
        done_view(last_end(rest), session_id) == (AgentView::Done {
            status: DoneStatus::Completed,
            error: None,
            session_id: Some(session_id),
        }),
    decreases rest.len(),
{
    let all = log.push(LogView::TurnEnd { reason });
    if rest.len() == 0 {
        assert(all + rest =~= all);
    } else {
        let front = rest.drop_last();
        assert forall|i: int| 0 <= i < front.len() implies !((#[trigger] front[i]) is TurnEnd) by {
            assert(front[i] == rest[i]);
        }
        law_the_last_turn_decides_the_end(log, front, reason, session_id);
        assert(!(rest[rest.len() - 1] is TurnEnd));
        assert((all + rest).drop_last() =~= all + front);
        assert((all + rest).last() == rest.last());
    }
}

/// The failed turn that a command reports is the last that ended in an error, with its message
/// and code; what follows it without an error changes nothing, and a log without an error has
/// none.
pub proof fn law_the_last_failure_is_reported(
    log: Seq<LogView>,
    rest: Seq<LogView>,
    error: ErrorView,
)
    requires
        forall|i: int|
            0 <= i < rest.len() ==> !((#[trigger] rest[i]) is TurnEnd && rest[i]->reason is Error),
    ensures
        last_failure(log.push(LogView::TurnEnd { reason: EndView::Error { error } }) + rest)
            == Some(error.message + " ("@ + error.code + ")"@),
        last_failure(rest) is None,
    decreases rest.len(),
{
    let all = log.push(LogView::TurnEnd { reason: EndView::Error { error } });
    if rest.len() == 0 {
        assert(all + rest =~= all);
    } else {
        let front = rest.drop_last();
        assert forall|i: int| 0 <= i < front.len() implies !((#[trigger] front[i]) is TurnEnd
            && front[i]->reason is Error) by {
            assert(front[i] == rest[i]);
        }
        law_the_last_failure_is_reported(log, front, error);
        let last = rest[rest.len() - 1];
        assert(!(last is TurnEnd && last->reason is Error));
        assert((all + rest).drop_last() =~= all + front);
        assert((all + rest).last() == last);
    }
}

/// A closed turn is made durable, and its own session is the one that is taken back.
pub proof fn law_a_closed_turn_is_durable(end: Option<EndView>, session_id: Seq<char>)
    ensures
        ({
            let actions = close_of(end, session_id);
            &&& actions.contains(ActionView::Leave)
            &&& actions.contains(ActionView::Flush)
            &&& actions.contains(ActionView::Unforward { session_id })
            &&& actions.contains(ActionView::Unroute { session_id })
            &&& actions.contains(ActionView::Dispose)
            &&& actions.len() == 6
            &&& actions[1] is Flush
            &&& actions[4] is Dispose
        }),
{
    let actions = close_of(end, session_id);
    assert(actions[0] == ActionView::Leave);
    assert(actions[1] == ActionView::Flush);
    assert(actions[2] == (ActionView::Unforward { session_id }));
    assert(actions[3] == (ActionView::Unroute { session_id }));
    assert(actions[4] == ActionView::Dispose);
}

/// An opening stands for the session and the model that it names.
pub proof fn law_openings_stand_for_what_they_name(o: Opening)
    ensures
        o matches Opening::Resume { session_id, model } ==> o@ == (OpeningView::Resume {
            session_id: session_id@,
            model: model@,
        }),
        o matches Opening::Create { session_id, cwd, model } ==> o@ == (OpeningView::Create {
            session_id: session_id@,
            cwd: opt(cwd),
            model: model@,
        }),
{
}

/// Actions are performed one for one.
pub proof fn law_action_views_are_one_for_one(s: Seq<Action>, i: int)
    ensures
        action_views(s).len() == s.len(),
        0 <= i < s.len() ==> action_views(s)[i] == s[i]@,
{
}

/// An action stands for what it does, and to which session.
pub proof fn law_actions_stand_for_what_they_do(a: Action)
    ensures
        a matches Action::Route { session_id, overlay } ==> a@ == (ActionView::Route {
            session_id: session_id@,
            overlay: overlay@,
        }),
        a matches Action::Send { event } ==> a@ == (ActionView::Send { event: event@ }),
        a matches Action::Forward { session_id } ==> a@ == (ActionView::Forward {
            session_id: session_id@,
        }),
        a matches Action::Prompt { text } ==> a@ == (ActionView::Prompt { text: text@ }),
        a matches Action::Unforward { session_id } ==> a@ == (ActionView::Unforward {
            session_id: session_id@,
        }),
        a matches Action::Unroute { session_id } ==> a@ == (ActionView::Unroute {
            session_id: session_id@,
        }),
        a is Attend <==> a@ is Attend,
        a is Wait <==> a@ is Wait,
        a is Leave <==> a@ is Leave,
        a is Flush <==> a@ is Flush,
        a is Dispose <==> a@ is Dispose,
{
}

}
