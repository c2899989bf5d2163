//! The way to a route decision, step by step. The host performs each action and hands back
//! what came of it; which action follows, and when the live status shows a selector at work, is
//! decided here.

use crate::proto::{DecisionEvent, ReceiptView, RunRequest};
use crate::routing::{
    asks_for_route, comes_to_ask, find_route, host_answer, host_reply, is_known,
    law_selection_names_one_route, may_ask, place_of, question, question_of, receipt, receipt_view,
    reported_of, requested, route_views, HostFacts, PreparedRoute, QuestionView, RouteBackend,
    RouteView, SelectionInput, SelectorReply, Validation,
};
use crate::text::opt;
use vstd::prelude::*;

verus! {

/// What the host is waiting for.
#[derive(Debug, Clone, Copy, PartialEq, Eq, Structural)]
pub enum Stage {
    /// Nothing has been done.
    Start,
    /// The routes are being prepared.
    Preparing,
    /// The workflow checks them.
    Checking,
    /// The remote selector is being made.
    Readying,
    /// The live status goes on.
    Showing,
    /// The selector is at work.
    Asking,
    /// The live status goes off.
    Hiding,
    /// The receipt is brought within the host's bounds.
    Bounding,
    /// The routes are prepared once more.
    Relisting,
    /// The workflow checks the selection against those.
    Validating,
    /// The decision can be made.
    Over,
}

/// One run towards a decision: where it stands, and what was found out.
pub struct RouteRun {
    pub stage: Stage,
    pub prepared: Vec<PreparedRoute>,
    pub revision: u64,
    pub facts: HostFacts,
}

/// What came of an action.
pub enum RouteEvent {
    Begun,
    Prepared { routes: Vec<PreparedRoute> },
    /// The task's revision, the routes' fingerprint, where it could be taken, and whether each
    /// is eligible.
    Checked { revision: u64, fingerprint: Option<String>, eligible: Vec<bool> },
    /// Whether there is a selector to ask.
    Readied { there: bool },
    /// The live status shows what it was to show; the moment is now.
    Shown { at_ms: i64 },
    Answered { reply: SelectorReply },
    Bounded { receipt: DecisionEvent },
    Relisted { live: Vec<PreparedRoute>, fingerprint: Option<String> },
    Validated { validation: Validation },
}

/// What the host is to do.
pub enum RouteAction {
    /// Prepare the routes.
    Prepare,
    /// Have the workflow check them.
    Check,
    /// Make the remote selector.
    Ready,
    /// Show whether a selector is at work.
    Show { on: bool },
    /// Ask the selector.
    Ask { input: SelectionInput },
    /// Bring the receipt within the host's bounds.
    Bound { receipt: DecisionEvent },
    /// Prepare the routes once more.
    Relist,
    /// Have the workflow check the selected route; it is authorized where it is still there.
    Validate { place: usize, authorized: bool },
    /// Decide.
    Settle,
}

/// The mathematical value of a [`RouteAction`].
pub enum StepView {
    Prepare,
    Check,
    Ready,
    Show { on: bool },
    Ask { input: QuestionView },
    Bound { receipt: ReceiptView },
    Relist,
    Validate { place: int, authorized: bool },
    Settle,
}

impl View for RouteAction {
    type V = StepView;

    open spec fn view(&self) -> StepView {
        match self {
            RouteAction::Prepare => StepView::Prepare,
            RouteAction::Check => StepView::Check,
            RouteAction::Ready => StepView::Ready,
            RouteAction::Show { on } => StepView::Show { on: *on },
            RouteAction::Ask { input } => StepView::Ask { input: input@ },
            RouteAction::Bound { receipt } => StepView::Bound { receipt: receipt@ },
            RouteAction::Relist => StepView::Relist,
            RouteAction::Validate { place, authorized } => StepView::Validate {
                place: *place as int,
                authorized: *authorized,
            },
            RouteAction::Settle => StepView::Settle,
        }
    }
}

/// The event is one that the stage waits for.
pub open spec fn fits(stage: Stage, event: RouteEvent) -> bool {
    match stage {
        Stage::Start => event is Begun,
        Stage::Preparing => event is Prepared,
        Stage::Checking => event is Checked,
        Stage::Readying => event is Readied,
        Stage::Showing => event is Shown,
        Stage::Asking => event is Answered,
        Stage::Hiding => event is Shown,
        Stage::Bounding => event is Bounded,
        Stage::Relisting => event is Relisted,
        Stage::Validating => event is Validated,
        Stage::Over => false,
    }
}

/// Where the answer's route stands among the prepared ones.
pub open spec fn selected_place(run: RouteRun) -> Option<int> {
    match run.facts.reply {
        Some(reply) => match opt(reply.selected_id) {
            Some(id) => place_of(route_views(run.prepared@), id),
            None => None,
        },
        None => None,
    }
}

/// The selected route is still among the live ones.
pub open spec fn still_there(run: RouteRun) -> bool {
    place_of(route_views(run.facts.live@), opt(run.facts.reply->0.selected_id)->0) is Some
}

/// The run with what the event brings.
pub open spec fn learned(run: RouteRun, event: RouteEvent) -> RouteRun {
    match event {
        RouteEvent::Prepared { routes } => RouteRun { prepared: routes, ..run },
        RouteEvent::Checked { revision, fingerprint, eligible } => RouteRun {
            revision,
            facts: HostFacts { fingerprint, eligible, ..run.facts },
            ..run
        },
        RouteEvent::Answered { reply } => RouteRun {
            facts: HostFacts { reply: Some(reply), ..run.facts },
            ..run
        },
        RouteEvent::Bounded { receipt } => RouteRun {
            facts: HostFacts { receipt, ..run.facts },
            ..run
        },
        RouteEvent::Relisted { live, fingerprint } => RouteRun {
            facts: HostFacts { live, live_fingerprint: fingerprint, ..run.facts },
            ..run
        },
        RouteEvent::Validated { validation } => RouteRun {
            facts: HostFacts { validation, ..run.facts },
            ..run
        },
        _ => run,
    }
}

/// A run that goes to a stage with an action.
pub open spec fn goes(run: RouteRun, stage: Stage, action: StepView) -> (RouteRun, StepView) {
    (RouteRun { stage, ..run }, action)
}

/// A run that has its answer: a known route is checked against the live ones, anything else is
/// decided at once.
pub open spec fn answered(run: RouteRun) -> (RouteRun, StepView) {
    if selected_place(run) is Some {
        goes(run, Stage::Relisting, StepView::Relist)
    } else {
        goes(run, Stage::Over, StepView::Settle)
    }
}

/// Where a run goes with an event, and the action that follows.
pub open spec fn route_step<L, P>(
    request: RunRequest,
    backend: RouteBackend<L, P>,
    before: RouteRun,
    event: RouteEvent,
) -> (RouteRun, StepView) {
    let run = learned(before, event);
    let settle = goes(run, Stage::Over, StepView::Settle);
    match before.stage {
        Stage::Start => if asks_for_route(request.model_options@) {
            goes(run, Stage::Preparing, StepView::Prepare)
        } else {
            settle
        },
        Stage::Preparing => if run.prepared@.len() > 0 {
            goes(run, Stage::Checking, StepView::Check)
        } else {
            settle
        },
        Stage::Checking => if comes_to_ask(request, route_views(run.prepared@), run.facts) {
            match backend {
                RouteBackend::LocalLaya(_) => goes(
                    run,
                    Stage::Showing,
                    StepView::Show { on: true },
                ),
                RouteBackend::TypeSafeJev(_) => goes(run, Stage::Readying, StepView::Ready),
                RouteBackend::HostPolicy => answered(
                    RouteRun {
                        facts: HostFacts {
                            reply: Some(host_answer(run.prepared@)),
                            ..run.facts
                        },
                        ..run
                    },
                ),
            }
        } else {
            settle
        },
        Stage::Readying => if event->there {
            goes(run, Stage::Showing, StepView::Show { on: true })
        } else {
            settle
        },
        Stage::Showing => match question_of(
            backend,
            request,
            route_views(run.prepared@),
            run.revision,
        ) {
            Some(input) => goes(run, Stage::Asking, StepView::Ask { input }),
            None => settle,
        },
        Stage::Asking => goes(run, Stage::Hiding, StepView::Show { on: false }),
        Stage::Hiding => match run.facts.reply {
            Some(reply) => goes(
                run,
                Stage::Bounding,
                StepView::Bound {
                    receipt: receipt_view(
                        backend,
                        route_views(run.prepared@),
                        reply,
                        run.revision,
                        event->at_ms,
                    ),
                },
            ),
            None => settle,
        },
        Stage::Bounding => answered(run),
        Stage::Relisting => if run.facts.live_fingerprint is Some && selected_place(run) is Some {
            goes(
                run,
                Stage::Validating,
                StepView::Validate {
                    place: selected_place(run)->0,
                    authorized: still_there(run),
                },
            )
        } else {
            settle
        },
        Stage::Validating => settle,
        Stage::Over => settle,
    }
}

/// A run of which nothing has been done.
pub open spec fn begins(run: RouteRun) -> bool {
    &&& run.stage == Stage::Start
    &&& run.prepared@.len() == 0
    &&& run.facts.fingerprint is None
    &&& run.facts.reply is None
    &&& run.facts.live_fingerprint is None
    &&& !run.facts.validation.accepted
}

impl RouteRun {
    /// A run of which nothing has been done.
    pub fn new<L, P>(backend: &RouteBackend<L, P>) -> (r: Self)
        ensures
            begins(r),
            r.revision == 0,
            r.facts.eligible@.len() == 0,
            r.facts.live@.len() == 0,
            r.facts.validation.rejection is None,
            r.facts.receipt@ == receipt_view(
                *backend,
                Seq::empty(),
                host_answer(Seq::empty()),
                0,
                0,
            ),
    {
        let none: Vec<PreparedRoute> = Vec::new();
        assert(route_views(none@) =~= Seq::<RouteView>::empty());
        assert(none@ =~= Seq::<PreparedRoute>::empty());
        let blank = receipt(backend, &none, &host_reply(&none), 0, 0);
        RouteRun {
            stage: Stage::Start,
            prepared: Vec::new(),
            revision: 0,
            facts: HostFacts {
                fingerprint: None,
                eligible: Vec::new(),
                reply: None,
                receipt: blank,
                live: Vec::new(),
                live_fingerprint: None,
                validation: Validation { accepted: false, rejection: None },
            },
        }
    }

    fn selected(&self) -> (r: Option<usize>)
        ensures
            match selected_place(*self) {
                Some(k) => r matches Some(n) && n == k,
                None => r is None,
            },
    {
        match &self.facts.reply {
            Some(reply) => match &reply.selected_id {
                Some(id) => find_route(&self.prepared, id.as_str()),
                None => None,
            },
            None => None,
        }
    }

    fn present(&self) -> (r: bool)
        requires
            selected_place(*self) is Some,
        ensures
            r == still_there(*self),
    {
        match &self.facts.reply {
            Some(reply) => match &reply.selected_id {
                Some(id) => find_route(&self.facts.live, id.as_str()).is_some(),
                None => false,
            },
            None => false,
        }
    }

    fn learn(&mut self, event: RouteEvent)
        ensures
            *final(self) == learned(*old(self), event),
    {
        match event {
            RouteEvent::Prepared { routes } => {
                self.prepared = routes;
            },
            RouteEvent::Checked { revision, fingerprint, eligible } => {
                self.revision = revision;
                self.facts.fingerprint = fingerprint;
                self.facts.eligible = eligible;
            },
            RouteEvent::Answered { reply } => {
                self.facts.reply = Some(reply);
            },
            RouteEvent::Bounded { receipt } => {
                self.facts.receipt = receipt;
            },
            RouteEvent::Relisted { live, fingerprint } => {
                self.facts.live = live;
                self.facts.live_fingerprint = fingerprint;
            },
            RouteEvent::Validated { validation } => {
                self.facts.validation = validation;
            },
            RouteEvent::Begun => {},
            RouteEvent::Readied { there: _ } => {},
            RouteEvent::Shown { at_ms: _ } => {},
        }
    }

    fn follow(&mut self) -> (r: RouteAction)
        ensures
            (*final(self), r@) == answered(*old(self)),
    {
        if self.selected().is_some() {
            self.stage = Stage::Relisting;
            RouteAction::Relist
        } else {
            self.stage = Stage::Over;
            RouteAction::Settle
        }
    }

    /// Takes what came of the last action, and says what follows. After [`RouteAction::Settle`]
    /// the decision is that of [`crate::routing::choose_with_report`] on the run's routes and
    /// facts.
    pub fn step<L, P>(
        &mut self,
        request: &RunRequest,
        backend: &RouteBackend<L, P>,
        event: RouteEvent,
    ) -> (r: RouteAction)
        requires
            fits(old(self).stage, event),
        ensures
            (*final(self), r@) == route_step(*request, *backend, *old(self), event),
    {
        let there = match &event {
            RouteEvent::Readied { there } => *there,
            _ => false,
        };
        let at_ms: i64 = match &event {
            RouteEvent::Shown { at_ms } => *at_ms,
            _ => 0,
        };
        self.learn(event);
        match self.stage {
            Stage::Start => {
                if requested(request) {
                    self.stage = Stage::Preparing;
                    return RouteAction::Prepare;
                }
            },
            Stage::Preparing => {
                if self.prepared.len() > 0 {
                    self.stage = Stage::Checking;
                    return RouteAction::Check;
                }
            },
            Stage::Checking => {
                if may_ask(request, &self.prepared, &self.facts) {
                    return match backend {
                        RouteBackend::LocalLaya(_) => {
                            self.stage = Stage::Showing;
                            RouteAction::Show { on: true }
                        },
                        RouteBackend::TypeSafeJev(_) => {
                            self.stage = Stage::Readying;
                            RouteAction::Ready
                        },
                        RouteBackend::HostPolicy => {
                            self.facts.reply = Some(host_reply(&self.prepared));
                            self.follow()
                        },
                    };
                }
            },
            Stage::Readying => {
                if there {
                    self.stage = Stage::Showing;
                    return RouteAction::Show { on: true };
                }
            },
            Stage::Showing => {
                if let Some(input) = question(backend, request, &self.prepared, self.revision) {
                    self.stage = Stage::Asking;
                    return RouteAction::Ask { input };
                }
            },
            Stage::Asking => {
                self.stage = Stage::Hiding;
                return RouteAction::Show { on: false };
            },
            Stage::Hiding => {
                if let Some(reply) = &self.facts.reply {
                    let receipt = receipt(backend, &self.prepared, reply, self.revision, at_ms);
                    self.stage = Stage::Bounding;
                    return RouteAction::Bound { receipt };
                }
            },
            Stage::Bounding => {
                return self.follow();
            },
            Stage::Relisting => {
                if self.facts.live_fingerprint.is_some() {
                    if let Some(place) = self.selected() {
                        let authorized = self.present();
                        self.stage = Stage::Validating;
                        return RouteAction::Validate { place, authorized };
                    }
                }
            },
            Stage::Validating => {},
            Stage::Over => {},
        }
        self.stage = Stage::Over;
        RouteAction::Settle
    }
}

/// A run after a list of events.
pub open spec fn run_after<L, P>(
    request: RunRequest,
    backend: RouteBackend<L, P>,
    start: RouteRun,
    events: Seq<RouteEvent>,
) -> RouteRun
    decreases events.len(),
{
    if events.len() == 0 {
        start
    } else {
        route_step(
            request,
            backend,
            run_after(request, backend, start, events.drop_last()),
            events.last(),
        ).0
    }
}

/// The actions of a run, in order.
pub open spec fn actions_of<L, P>(
    request: RunRequest,
    backend: RouteBackend<L, P>,
    start: RouteRun,
    events: Seq<RouteEvent>,
) -> Seq<StepView>
    decreases events.len(),
{
    if events.len() == 0 {
        Seq::empty()
    } else {
        let before = run_after(request, backend, start, events.drop_last());
        actions_of(request, backend, start, events.drop_last()).push(
            route_step(request, backend, before, events.last()).1,
        )
    }
}

/// Every event is one that the run waits for.
pub open spec fn all_fit<L, P>(
    request: RunRequest,
    backend: RouteBackend<L, P>,
    start: RouteRun,
    events: Seq<RouteEvent>,
) -> bool
    decreases events.len(),
{
    events.len() == 0 || (all_fit(request, backend, start, events.drop_last()) && fits(
        run_after(request, backend, start, events.drop_last()).stage,
        events.last(),
    ))
}

/// What the live status is told, in order.
pub open spec fn shown(actions: Seq<StepView>) -> Seq<bool>
    decreases actions.len(),
{
    if actions.len() == 0 {
        Seq::empty()
    } else {
        match actions.last() {
            StepView::Show { on } => shown(actions.drop_last()).push(on),
            _ => shown(actions.drop_last()),
        }
    }
}

/// What holds of a run wherever it stands.
spec fn sound<L, P>(request: RunRequest, backend: RouteBackend<L, P>, run: RouteRun) -> bool {
    let may = comes_to_ask(request, route_views(run.prepared@), run.facts);
    match run.stage {
        Stage::Start => run.facts.reply is None,
        Stage::Preparing => run.facts.reply is None,
        Stage::Checking => run.facts.reply is None,
        Stage::Readying => run.facts.reply is None && may && !(backend is HostPolicy),
        Stage::Showing => run.facts.reply is None && may && !(backend is HostPolicy),
        Stage::Asking => run.facts.reply is None && may && !(backend is HostPolicy),
        Stage::Hiding => run.facts.reply is Some && may && !(backend is HostPolicy),
        Stage::Bounding => run.facts.reply is Some && may && !(backend is HostPolicy),
        Stage::Relisting => run.facts.reply is Some && may,
        Stage::Validating => run.facts.reply is Some && may,
        Stage::Over => run.facts.reply is Some ==> may,
    }
}

/// What the live status has been told by the time a run stands here.
spec fn told_by<L, P>(backend: RouteBackend<L, P>, run: RouteRun) -> Seq<bool> {
    match run.stage {
        Stage::Showing => seq![true],
        Stage::Asking => seq![true],
        _ => if run.facts.reply is Some && !(backend is HostPolicy) {
            seq![true, false]
        } else {
            Seq::empty()
        },
    }
}

/// The question stands between the two tellings, about a list that is not empty, and before
/// any check of the answer.
pub open spec fn question_is_framed(actions: Seq<StepView>) -> bool {
    &&& forall|k: int|
        #![trigger actions[k]]
        0 <= k < actions.len() && actions[k] is Ask ==> {
            &&& k > 0 && actions[k - 1] == (StepView::Show { on: true })
            &&& k + 1 < actions.len() ==> actions[k + 1] == (StepView::Show { on: false })
            &&& actions[k]->input.candidates.len() > 0
        }
    &&& forall|k: int|
        #![trigger actions[k]]
        0 <= k < actions.len() && actions[k] == (StepView::Show { on: true }) ==> (k + 1
            < actions.len() ==> actions[k + 1] is Ask)
    &&& forall|k: int|
        #![trigger actions[k]]
        0 <= k < actions.len() && actions[k] == (StepView::Show { on: false }) ==> k > 0
            && actions[k - 1] is Ask
    &&& forall|j: int, k: int|
        #![trigger actions[j], actions[k]]
        0 <= j < actions.len() && 0 <= k < actions.len() && (actions[j] is Ask || actions[j]
            is Show) && (actions[k] is Relist || actions[k] is Validate || actions[k] is Settle)
            ==> j < k
}

/// What the last action was by the time a run stands here.
spec fn last_fits(run: RouteRun, actions: Seq<StepView>) -> bool {
    let late = forall|k: int|
        0 <= k < actions.len() ==> !((#[trigger] actions[k]) is Relist || actions[k] is Validate
            || actions[k] is Settle);
    match run.stage {
        Stage::Start => late && actions.len() == 0,
        Stage::Showing => late && actions.len() > 0 && actions.last() == (StepView::Show {
            on: true,
        }),
        Stage::Asking => late && actions.len() > 0 && actions.last() is Ask,
        Stage::Hiding => late && actions.len() > 0 && actions.last() == (StepView::Show {
            on: false,
        }),
        Stage::Relisting => actions.len() > 0 && actions.last() is Relist,
        Stage::Validating => actions.len() > 0 && actions.last() is Validate,
        Stage::Over => actions.len() > 0 && actions.last() is Settle,
        _ => late && actions.len() > 0 && !(actions.last() is Show) && !(actions.last() is Ask),
    }
}

proof fn lemma_step_is_sound<L, P>(
    request: RunRequest,
    backend: RouteBackend<L, P>,
    run: RouteRun,
    event: RouteEvent,
)
    requires
        sound(request, backend, run),
        fits(run.stage, event),
    ensures
        ({
            let (next, action) = route_step(request, backend, run, event);
            &&& sound(request, backend, next)
            &&& told_by(backend, next) == match action {
                StepView::Show { on } => told_by(backend, run).push(on),
                _ => told_by(backend, run),
            }
            &&& action is Ask ==> action->input.candidates.len() > 0
            &&& action is Ask <==> run.stage == Stage::Showing
            &&& action == (StepView::Show { on: true }) <==> next.stage == Stage::Showing
            &&& action == (StepView::Show { on: false }) <==> run.stage == Stage::Asking
        }),
{
    let (next, action) = route_step(request, backend, run, event);
    assert(told_by(backend, next) =~= match action {
        StepView::Show { on } => told_by(backend, run).push(on),
        _ => told_by(backend, run),
    });
}

proof fn lemma_run_is_sound<L, P>(
    request: RunRequest,
    backend: RouteBackend<L, P>,
    start: RouteRun,
    events: Seq<RouteEvent>,
)
    requires
        begins(start),
        all_fit(request, backend, start, events),
    ensures
        ({
            let run = run_after(request, backend, start, events);
            let actions = actions_of(request, backend, start, events);
            &&& actions.len() == events.len()
            &&& sound(request, backend, run)
            &&& shown(actions) == told_by(backend, run)
            &&& last_fits(run, actions)
            &&& question_is_framed(actions)
        }),
    decreases events.len(),
{
    if events.len() > 0 {
        let front = events.drop_last();
        lemma_run_is_sound(request, backend, start, front);
        let run = run_after(request, backend, start, front);
        let before = actions_of(request, backend, start, front);
        lemma_step_is_sound(request, backend, run, events.last());
        let (next, action) = route_step(request, backend, run, events.last());
        let actions = actions_of(request, backend, start, events);
        assert(actions == before.push(action));
        assert(actions.drop_last() =~= before);
        assert(forall|k: int| 0 <= k < before.len() ==> actions[k] == before[k]);
        assert(actions.last() == action);
        if before.len() > 0 {
            assert(before.last() == actions[before.len() - 1]);
        }
    }
}

/// The live status is told nothing where no selector is asked, and exactly `true` and then
/// `false` where one is, whatever it answers. The question stands directly between the two, is
/// about at least one candidate, and comes before its answer is checked. Under the host's own
/// policy nobody is asked.
pub proof fn law_the_status_frames_the_question<L, P>(
    request: RunRequest,
    backend: RouteBackend<L, P>,
    start: RouteRun,
    events: Seq<RouteEvent>,
)
    requires
        begins(start),
        all_fit(request, backend, start, events),
        run_after(request, backend, start, events).stage == Stage::Over,
    ensures
        ({
            let actions = actions_of(request, backend, start, events);
            let asked = exists|k: int| 0 <= k < actions.len() && (#[trigger] actions[k]) is Ask;
            &&& shown(actions) == if asked {
                seq![true, false]
            } else {
                Seq::empty()
            }
            &&& question_is_framed(actions)
            &&& backend is HostPolicy ==> !asked
        }),
{
    lemma_run_is_sound(request, backend, start, events);
    lemma_shown_where_asked(actions_of(request, backend, start, events));
}

proof fn lemma_shown_where_asked(actions: Seq<StepView>)
    ensures
        shown(actions).len() > 0 <==> exists|k: int|
            0 <= k < actions.len() && (#[trigger] actions[k]) is Show,
    decreases actions.len(),
{
    if actions.len() > 0 {
        let front = actions.drop_last();
        lemma_shown_where_asked(front);
        if shown(front).len() > 0 {
            let k = choose|k: int| 0 <= k < front.len() && (#[trigger] front[k]) is Show;
            assert(actions[k] is Show);
        }
        if exists|k: int| 0 <= k < actions.len() && (#[trigger] actions[k]) is Show {
            let k = choose|k: int| 0 <= k < actions.len() && (#[trigger] actions[k]) is Show;
            if k < front.len() {
                assert(front[k] is Show);
            } else {
                assert(actions.last() is Show);
            }
        }
        if actions.last() is Show {
            assert(actions[actions.len() - 1] is Show);
        }
    }
}

/// A receipt is reported exactly where a selector was asked on the way.
pub proof fn law_receipts_follow_the_question<L, P>(
    request: RunRequest,
    backend: RouteBackend<L, P>,
    start: RouteRun,
    events: Seq<RouteEvent>,
)
    requires
        begins(start),
        all_fit(request, backend, start, events),
        run_after(request, backend, start, events).stage == Stage::Over,
    ensures
        ({
            let run = run_after(request, backend, start, events);
            let actions = actions_of(request, backend, start, events);
            reported_of(request, backend, route_views(run.prepared@), run.facts).event is Some
                <==> exists|k: int| 0 <= k < actions.len() && (#[trigger] actions[k]) is Ask
        }),
{
    lemma_run_is_sound(request, backend, start, events);
    law_the_status_frames_the_question(request, backend, start, events);
    let run = run_after(request, backend, start, events);
    let actions = actions_of(request, backend, start, events);
    assert(shown(actions) == told_by(backend, run));
    assert(seq![true, false].len() == 2);
}

/// What came of an action is kept as it came, and nothing else changes with it.
pub proof fn law_what_comes_is_kept(run: RouteRun, event: RouteEvent)
    ensures
        ({
            let after = learned(run, event);
            &&& after.stage == run.stage
            &&& event matches RouteEvent::Prepared { routes } ==> after.prepared == routes
            &&& !(event is Prepared) ==> after.prepared == run.prepared
            &&& event matches RouteEvent::Checked { revision, fingerprint, eligible } ==> {
                &&& after.revision == revision
                &&& after.facts.fingerprint == fingerprint
                &&& after.facts.eligible == eligible
            }
            &&& !(event is Checked) ==> {
                &&& after.revision == run.revision
                &&& after.facts.fingerprint == run.facts.fingerprint
                &&& after.facts.eligible == run.facts.eligible
            }
            &&& event matches RouteEvent::Answered { reply } ==> after.facts.reply == Some(reply)
            &&& !(event is Answered) ==> after.facts.reply == run.facts.reply
            &&& event matches RouteEvent::Bounded { receipt } ==> after.facts.receipt == receipt
            &&& !(event is Bounded) ==> after.facts.receipt == run.facts.receipt
            &&& event matches RouteEvent::Relisted { live, fingerprint } ==> {
                &&& after.facts.live == live
                &&& after.facts.live_fingerprint == fingerprint
            }
            &&& !(event is Relisted) ==> {
                &&& after.facts.live == run.facts.live
                &&& after.facts.live_fingerprint == run.facts.live_fingerprint
            }
            &&& event matches RouteEvent::Validated { validation } ==> after.facts.validation
                == validation
            &&& !(event is Validated) ==> after.facts.validation == run.facts.validation
        }),
{
}

/// A request that does not ask for a route, or for which none is prepared, is decided at once;
/// any other goes on to the workflow's check.
pub proof fn law_a_run_begins_with_the_routes<L, P>(
    request: RunRequest,
    backend: RouteBackend<L, P>,
    run: RouteRun,
    event: RouteEvent,
)
    requires
        fits(run.stage, event),
    ensures
        ({
            let (after, action) = route_step(request, backend, run, event);
            &&& run.stage == Stage::Start && asks_for_route(request.model_options@) ==> action
                is Prepare && after.stage == Stage::Preparing
            &&& run.stage == Stage::Start && !asks_for_route(request.model_options@) ==> action
                is Settle && after.stage == Stage::Over
            &&& run.stage == Stage::Preparing && event->routes@.len() > 0 ==> action is Check
                && after.stage == Stage::Checking
            &&& run.stage == Stage::Preparing && event->routes@.len() == 0 ==> action is Settle
                && after.stage == Stage::Over
        }),
{
}

/// Once the host may ask, the local selector is shown at work, the remote one is made first and
/// shown only where it is there, and the host's policy answers with the best route.
pub proof fn law_a_run_asks_its_backend<L, P>(
    request: RunRequest,
    backend: RouteBackend<L, P>,
    run: RouteRun,
    event: RouteEvent,
)
    requires
        fits(run.stage, event),
    ensures
        ({
            let (after, action) = route_step(request, backend, run, event);
            let may = comes_to_ask(request, route_views(after.prepared@), after.facts);
            &&& run.stage == Stage::Checking && may && backend is LocalLaya ==> action == (
            StepView::Show { on: true }) && after.stage == Stage::Showing
            &&& run.stage == Stage::Checking && may && backend is TypeSafeJev ==> action is Ready
                && after.stage == Stage::Readying
            &&& run.stage == Stage::Checking && backend is HostPolicy && comes_to_ask(
                request,
                route_views(run.prepared@),
                learned(run, event).facts,
            ) ==> after.facts.reply == Some(host_answer(run.prepared@)) && action is Relist
                && after.stage == Stage::Relisting
            &&& run.stage == Stage::Checking && !comes_to_ask(
                request,
                route_views(run.prepared@),
                learned(run, event).facts,
            ) ==> action is Settle && after.stage == Stage::Over
            &&& run.stage == Stage::Readying && event->there ==> action == (StepView::Show {
                on: true,
            }) && after.stage == Stage::Showing
            &&& run.stage == Stage::Readying && !event->there ==> action is Settle && after.stage
                == Stage::Over
            &&& run.stage == Stage::Showing ==> match question_of(
                backend,
                request,
                route_views(run.prepared@),
                run.revision,
            ) {
                Some(input) => action == (StepView::Ask { input }) && after.stage == Stage::Asking,
                None => action is Settle,
            }
        }),
{
    let prepared = route_views(run.prepared@);
    if run.stage == Stage::Checking && prepared.len() > 0 {
        assert(prepared[0] == run.prepared@[0]@);
        law_selection_names_one_route(prepared, prepared[0].id);
    }
}

/// An answer is recorded in a receipt as of the moment at which the status went off, and one
/// that names a prepared route is never settled before the routes were prepared once more and,
/// where those have a fingerprint, the workflow was asked about it, with whether it is still
/// there.
pub proof fn law_known_answers_are_checked_again<L, P>(
    request: RunRequest,
    backend: RouteBackend<L, P>,
    run: RouteRun,
    event: RouteEvent,
)
    requires
        fits(run.stage, event),
    ensures
        ({
            let (after, action) = route_step(request, backend, run, event);
            let id = match after.facts.reply {
                Some(reply) => opt(reply.selected_id),
                None => None,
            };
            let known = is_known(route_views(after.prepared@), id);
            &&& run.stage == Stage::Asking ==> action == (StepView::Show { on: false })
                && after.stage == Stage::Hiding
            &&& run.stage == Stage::Hiding && run.facts.reply is Some ==> action == (
            StepView::Bound {
                receipt: receipt_view(
                    backend,
                    route_views(run.prepared@),
                    run.facts.reply->0,
                    run.revision,
                    event->at_ms,
                ),
            }) && after.stage == Stage::Bounding
            &&& run.stage == Stage::Bounding && known ==> action is Relist && after.stage
                == Stage::Relisting
            &&& run.stage == Stage::Bounding && !known ==> action is Settle && after.stage
                == Stage::Over
            &&& run.stage == Stage::Relisting && known && after.facts.live_fingerprint is Some ==> {
                &&& action matches StepView::Validate { place, authorized } && {
                    &&& 0 <= place < after.prepared@.len()
                    &&& after.prepared@[place].id@ == id->0
                    &&& authorized <==> is_known(route_views(after.facts.live@), id)
                }
                &&& after.stage == Stage::Validating
            }
            &&& run.stage == Stage::Relisting && after.facts.live_fingerprint is None ==> action
                is Settle && after.stage == Stage::Over
            &&& run.stage == Stage::Validating ==> action is Settle && after.stage == Stage::Over
        }),
{
    let after = route_step(request, backend, run, event).0;
    let prepared = route_views(after.prepared@);
    let live = route_views(after.facts.live@);
    if let Some(reply) = after.facts.reply {
        if let Some(id) = opt(reply.selected_id) {
            law_selection_names_one_route(prepared, id);
            law_selection_names_one_route(live, id);
            if let Some(k) = place_of(prepared, id) {
                assert(prepared[k].id == id);
                assert(prepared[k] == after.prepared@[k]@);
            }
            if let Some(k) = place_of(live, id) {
                assert(live[k].id == id);
            }
        }
    }
}

}
