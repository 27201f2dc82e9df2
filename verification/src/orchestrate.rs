//! Inspect, decide, recheck, and act for one `hnd` invocation, as a state
//! machine: the caller performs each requested Herdr operation and hands its
//! result back, together with the interruption and deadline status.

use vstd::prelude::*;

use crate::decision::{decide, spec_decide};
use crate::error::{Error, ErrorKind, ErrorView, RunError, RunErrorView};
use crate::herdr::focus::FocusResult;
use crate::herdr::inspect::{ProcessInspection, SessionInspection, apply_shell_evidence, evidence_applied, fill_targets, names_unproven_shell, pane_id_views, spec_fill_targets};
use crate::herdr::protocol::CommandResult;
use crate::path::{CanonicalPath, ResolvedPaths};
use crate::text::concat;
use crate::types::{Action, ActionView, AgentIdlePolicy, Caller, Occupant, PaneId, Session, WorkspaceId};

verus! {

/// Entire invocation deadline, including the one allowed recomputation.
pub const TOTAL_DEADLINE_SECS: u64 = 10;

/// Side effect visible at the Nushell boundary after Herdr work completes.
#[derive(Debug, Clone, PartialEq, Eq)]
pub enum Outcome {
    Silent,
    ChangeDirectory { path: CanonicalPath },
}

pub enum OutcomeView {
    Silent,
    ChangeDirectory { path: Seq<Seq<char>> },
}

impl View for Outcome {
    type V = OutcomeView;

    open spec fn view(&self) -> OutcomeView {
        match self {
            Outcome::Silent => OutcomeView::Silent,
            Outcome::ChangeDirectory { path } => OutcomeView::ChangeDirectory { path: path@ },
        }
    }
}

/// Interruption and deadline status observed when a result is handed back.
#[derive(Debug, Clone, Copy, PartialEq, Eq, Structural)]
pub struct Halt {
    pub interrupted: bool,
    pub expired: bool,
}

/// Herdr work the caller must perform next.
#[derive(Debug, Clone, PartialEq, Eq)]
pub enum Request {
    InspectSession,
    InspectProcess { pane_id: PaneId },
    FocusPane { pane_id: PaneId },
    CreateTab { workspace_id: WorkspaceId, cwd: CanonicalPath },
    CreateWorkspace { cwd: CanonicalPath },
}

pub enum RequestView {
    InspectSession,
    InspectProcess { pane_id: Seq<char> },
    FocusPane { pane_id: Seq<char> },
    CreateTab { workspace_id: Seq<char>, cwd: Seq<Seq<char>> },
    CreateWorkspace { cwd: Seq<Seq<char>> },
}

impl View for Request {
    type V = RequestView;

    open spec fn view(&self) -> RequestView {
        match self {
            Request::InspectSession => RequestView::InspectSession,
            Request::InspectProcess { pane_id } => RequestView::InspectProcess { pane_id: pane_id@ },
            Request::FocusPane { pane_id } => RequestView::FocusPane { pane_id: pane_id@ },
            Request::CreateTab { workspace_id, cwd } => RequestView::CreateTab { workspace_id: workspace_id@, cwd: cwd@ },
            Request::CreateWorkspace { cwd } => RequestView::CreateWorkspace { cwd: cwd@ },
        }
    }
}

/// Result of the last requested Herdr operation.
pub enum Reply {
    Session(SessionInspection),
    Process(ProcessInspection),
    Focus(FocusResult),
    Create(CommandResult<()>),
    Failed(RunError),
}

/// The next request, or the final result of the invocation.
pub enum Step {
    Perform(Request),
    Finish(Result<Outcome, RunError>),
}

pub enum StepView {
    Perform(RequestView),
    Finish(Result<OutcomeView, RunErrorView>),
}

impl View for Step {
    type V = StepView;

    open spec fn view(&self) -> StepView {
        match self {
            Step::Perform(r) => StepView::Perform(r@),
            Step::Finish(Ok(o)) => StepView::Finish(Ok(o@)),
            Step::Finish(Err(e)) => StepView::Finish(Err(e@)),
        }
    }
}

/// Which preparation is running: the first, the recheck before a create, or
/// the one after a not-found action.
#[derive(Debug, Clone, Copy, PartialEq, Eq, Structural)]
pub enum Purpose {
    Initial,
    Recheck,
    Retry,
}

/// What the machine waits for.
#[derive(Debug, Clone, Copy, PartialEq, Eq, Structural)]
pub enum Stage {
    Loading,
    Filling,
    Acting,
    Finished,
}

/// Orchestration state of one inside-Herdr invocation.
pub struct Orchestrator {
    target: CanonicalPath,
    caller_cwd: CanonicalPath,
    policy: AgentIdlePolicy,
    stage: Stage,
    purpose: Purpose,
    prepare_recomputed: bool,
    recomputed: bool,
    caller: Caller,
    session: Session,
    pending: Vec<PaneId>,
    next: usize,
    action: Option<Action>,
    inspections: Ghost<nat>,
    snapshot: Ghost<Session>,
}

pub open spec fn timeout_error() -> ErrorView {
    ErrorView { kind: ErrorKind::HerdrTimeout, message: "hcd exceeded the 10-second deadline"@ }
}

/// Interruption wins over an expired deadline; neither lets work continue.
pub open spec fn spec_check(halt: Halt) -> Result<(), RunErrorView> {
    if halt.interrupted {
        Err(RunErrorView::Interrupted)
    } else if halt.expired {
        Err(RunErrorView::Failed(timeout_error()))
    } else {
        Ok(())
    }
}

pub fn check(halt: Halt) -> (r: Result<(), RunError>)
    ensures
        match r {
            Ok(()) => spec_check(halt) is Ok,
            Err(e) => spec_check(halt) == Err::<(), RunErrorView>(e@),
        },
{
    if halt.interrupted {
        Err(RunError::Interrupted)
    } else if halt.expired {
        Err(RunError::Failed(Error::herdr_timeout(String::from_str("hcd exceeded the 10-second deadline"))))
    } else {
        Ok(())
    }
}

/// A halted Herdr call is an interruption only when the user interrupted;
/// otherwise the deadline stopped it.
pub open spec fn spec_map_halt(e: RunErrorView, interrupted: bool) -> RunErrorView {
    match e {
        RunErrorView::Interrupted => if interrupted { RunErrorView::Interrupted } else { RunErrorView::Failed(timeout_error()) },
        other => other,
    }
}

pub fn map_halt(error: RunError, interrupted: bool) -> (r: RunError)
    ensures
        r@ == spec_map_halt(error@, interrupted),
{
    match error {
        RunError::Interrupted => if interrupted {
            RunError::Interrupted
        } else {
            RunError::Failed(Error::herdr_timeout(String::from_str("hcd exceeded the 10-second deadline")))
        },
        other => other,
    }
}

pub open spec fn spec_is_create(a: ActionView) -> bool {
    a is CreateTab || a is CreateWorkspace
}

pub fn is_create(action: &Action) -> (r: bool)
    ensures
        r == spec_is_create(action@),
{
    match action {
        Action::CreateTab { .. } => true,
        Action::CreateWorkspace { .. } => true,
        _ => false,
    }
}

pub open spec fn stale_error() -> ErrorView {
    ErrorView { kind: ErrorKind::HerdrProtocol, message: "live caller is absent from the session snapshot"@ }
}

/// Message of an action that still reports not-found after recomputation.
pub open spec fn not_found_message(a: ActionView, code: Seq<char>, message: Seq<char>) -> Seq<char> {
    let what = if a is FocusPane {
        "pane focus failed after recomputation: "@
    } else if a is CreateTab {
        "tab creation failed after recomputation: "@
    } else {
        "workspace creation failed after recomputation: "@
    };
    what + code + ": "@ + message
}

impl Orchestrator {
    pub closed spec fn stage(self) -> Stage {
        self.stage
    }

    pub closed spec fn purpose(self) -> Purpose {
        self.purpose
    }

    pub closed spec fn prepare_recomputed(self) -> bool {
        self.prepare_recomputed
    }

    /// Whether the action being executed came from a recomputed view.
    pub closed spec fn recomputed(self) -> bool {
        self.recomputed
    }

    /// Session inspections requested so far.
    pub closed spec fn inspections(self) -> nat {
        self.inspections@
    }

    pub closed spec fn target(self) -> Seq<Seq<char>> {
        self.target@
    }

    pub closed spec fn caller_cwd(self) -> Seq<Seq<char>> {
        self.caller_cwd@
    }

    pub closed spec fn policy(self) -> AgentIdlePolicy {
        self.policy
    }

    /// The snapshot whose panes are being inspected.
    pub closed spec fn snapshot(self) -> Session {
        self.snapshot@
    }

    /// The decided action being executed.
    pub closed spec fn action(self) -> ActionView {
        self.action->0@
    }

    /// Counting invariant: at most one recomputation, so at most two session
    /// inspections; an action from an unrecomputed view never creates.
    pub closed spec fn wf(self) -> bool {
        &&& self.inspections@ <= 2
        &&& (self.stage == Stage::Loading || self.stage == Stage::Filling) ==> {
            ||| (self.purpose == Purpose::Initial && self.inspections@ == 1 + if self.prepare_recomputed { 1nat } else { 0nat })
            ||| (self.purpose != Purpose::Initial && self.prepare_recomputed && self.inspections@ == 2)
        }
        &&& self.stage == Stage::Filling ==> {
            &&& self.next < self.pending@.len()
            &&& self.caller.cwd@ != self.target@
            &&& forall|i: int| 0 <= i < self.pending@.len() ==> names_unproven_shell(self.snapshot@, self.target@, #[trigger] self.pending@[i]@)
        }
        &&& self.stage == Stage::Acting ==> {
            &&& self.action is Some
            &&& (self.recomputed ==> self.inspections@ == 2)
            &&& (!self.recomputed ==> self.inspections@ == 1 && !spec_is_create(self.action->0@))
            &&& (self.action->0 is FocusPane || spec_is_create(self.action->0@))
        }
    }

    /// Whether `reply` answers the request that the machine waits for.
    pub open spec fn awaits(self, reply: &Reply) -> bool {
        match self.stage() {
            Stage::Loading => reply is Session || reply is Failed,
            Stage::Filling => reply is Process || reply is Failed,
            Stage::Acting => reply is Focus || reply is Create || reply is Failed,
            Stage::Finished => false,
        }
    }

    pub fn accepts(&self, reply: &Reply) -> (r: bool)
        ensures
            r == self.awaits(reply),
    {
        match self.stage {
            Stage::Loading => matches!(reply, Reply::Session(_)) || matches!(reply, Reply::Failed(_)),
            Stage::Filling => matches!(reply, Reply::Process(_)) || matches!(reply, Reply::Failed(_)),
            Stage::Acting => matches!(reply, Reply::Focus(_)) || matches!(reply, Reply::Create(_)) || matches!(reply, Reply::Failed(_)),
            Stage::Finished => false,
        }
    }

    /// Begin one invocation. Outside Herdr the target is the answer; inside,
    /// the first session inspection is requested.
    pub fn orchestrate(paths: ResolvedPaths, inside: bool, policy: AgentIdlePolicy, halt: Halt) -> (r: (Self, Step))
        ensures
            r.0.wf(),
            r.0.target() == paths.target@,
            r.0.caller_cwd() == paths.caller_cwd@,
            r.0.policy() == policy,
            spec_check(halt) matches Err(e) ==> r.1@ == StepView::Finish(Err(e)) && r.0.stage() == Stage::Finished,
            spec_check(halt) is Ok && !inside ==> r.1@ == StepView::Finish(Ok(OutcomeView::ChangeDirectory { path: paths.target@ }))
                && r.0.stage() == Stage::Finished,
            spec_check(halt) is Ok && inside ==> r.1@ == StepView::Perform(RequestView::InspectSession)
                && r.0.stage() == Stage::Loading && r.0.purpose() == Purpose::Initial && !r.0.prepare_recomputed()
                && r.0.inspections() == 1,
    {
        let initial_cwd = paths.caller_cwd.duplicate();
        let mut machine = Orchestrator {
            target: paths.target,
            caller_cwd: paths.caller_cwd,
            policy,
            stage: Stage::Finished,
            purpose: Purpose::Initial,
            prepare_recomputed: false,
            recomputed: false,
            caller: Caller {
                cwd: initial_cwd,
                workspace_id: WorkspaceId::new(""),
                tab_id: crate::types::TabId::new(""),
                pane_id: PaneId::new(""),
            },
            session: Session { focused_workspace_id: None, workspaces: Vec::new() },
            pending: Vec::new(),
            next: 0,
            action: None,
            inspections: Ghost(0),
            snapshot: Ghost(vstd::pervasive::arbitrary()),
        };
        if let Err(e) = check(halt) {
            return (machine, Step::Finish(Err(e)));
        }
        if !inside {
            let path = machine.target.duplicate();
            return (machine, Step::Finish(Ok(Outcome::ChangeDirectory { path })));
        }
        machine.stage = Stage::Loading;
        machine.inspections = Ghost(1);
        (machine, Step::Perform(Request::InspectSession))
    }

    fn finish(&mut self, result: Result<Outcome, RunError>) -> (s: Step)
        requires
            old(self).inspections@ <= 2,
        ensures
            s == Step::Finish(result),
            final(self).stage == Stage::Finished,
            final(self).wf(),
            final(self).target == old(self).target,
            final(self).caller_cwd == old(self).caller_cwd,
            final(self).policy == old(self).policy,
            final(self).inspections == old(self).inspections,
            final(self).purpose == old(self).purpose,
            final(self).prepare_recomputed == old(self).prepare_recomputed,
            final(self).recomputed == old(self).recomputed,
            final(self).caller == old(self).caller,
            final(self).session == old(self).session,
            final(self).snapshot == old(self).snapshot,
            final(self).pending == old(self).pending,
            final(self).next == old(self).next,
            final(self).action == old(self).action,
    {
        self.stage = Stage::Finished;
        Step::Finish(result)
    }

    /// The top of the preparation loop: check, then inspect the session.
    fn load_view(&mut self, halt: Halt) -> (s: Step)
        requires
            old(self).inspections@ <= 1,
            (old(self).purpose == Purpose::Initial && old(self).prepare_recomputed && old(self).inspections@ == 1)
                || (old(self).purpose != Purpose::Initial && old(self).prepare_recomputed && old(self).inspections@ == 1),
        ensures
            (s@ is Finish) == (final(self).stage == Stage::Finished),
            final(self).wf(),
            final(self).target == old(self).target,
            final(self).caller_cwd == old(self).caller_cwd,
            final(self).policy == old(self).policy,
            final(self).purpose == old(self).purpose,
            final(self).prepare_recomputed == old(self).prepare_recomputed,
            final(self).recomputed == old(self).recomputed,
            final(self).caller == old(self).caller,
            final(self).session == old(self).session,
            final(self).snapshot == old(self).snapshot,
            final(self).pending == old(self).pending,
            final(self).next == old(self).next,
            final(self).action == old(self).action,
            spec_check(halt) matches Err(e) ==> s@ == StepView::Finish(Err(e)) && final(self).stage == Stage::Finished
                && final(self).inspections == old(self).inspections,
            spec_check(halt) is Ok ==> s@ == StepView::Perform(RequestView::InspectSession) && final(self).stage == Stage::Loading
                && final(self).inspections@ == old(self).inspections@ + 1,
    {
        if let Err(e) = check(halt) {
            return self.finish(Err(e));
        }
        self.stage = Stage::Loading;
        self.inspections = Ghost(self.inspections@ + 1);
        Step::Perform(Request::InspectSession)
    }
}


/// Check, then request a fresh session inspection.
pub open spec fn spec_reinspect(halt: Halt) -> StepView {
    match spec_check(halt) {
        Err(e) => StepView::Finish(Err(e)),
        Ok(_) => StepView::Perform(RequestView::InspectSession),
    }
}

/// Check, then perform the decided action: no-op and directory change end
/// the invocation; focus and creation are requested from Herdr.
pub open spec fn spec_execute(a: ActionView, halt: Halt) -> StepView {
    match spec_check(halt) {
        Err(e) => StepView::Finish(Err(e)),
        Ok(_) => match a {
            ActionView::NoOp => StepView::Finish(Ok(OutcomeView::Silent)),
            ActionView::ChangeDirectory { path } => StepView::Finish(Ok(OutcomeView::ChangeDirectory { path })),
            ActionView::FocusPane { pane_id } => StepView::Perform(RequestView::FocusPane { pane_id }),
            ActionView::CreateTab { workspace_id, cwd } => StepView::Perform(RequestView::CreateTab { workspace_id, cwd }),
            ActionView::CreateWorkspace { cwd } => StepView::Perform(RequestView::CreateWorkspace { cwd }),
        },
    }
}

/// Once a view is prepared and `a` decided: a create decided from a view
/// that was never recomputed is rechecked first; anything else executes.
pub open spec fn spec_after_prepare(purpose: Purpose, recomputed: bool, a: ActionView, halt: Halt) -> StepView {
    if purpose == Purpose::Initial && spec_is_create(a) && !recomputed {
        spec_reinspect(halt)
    } else {
        spec_execute(a, halt)
    }
}

/// Continue filling process evidence at `next`, or decide once done.
pub open spec fn spec_fill_continue(pending: Seq<Seq<char>>, next: nat, purpose: Purpose, recomputed: bool, a: ActionView, halt: Halt) -> StepView {
    if next < pending.len() {
        StepView::Perform(RequestView::InspectProcess { pane_id: pending[next as int] })
    } else {
        spec_after_prepare(purpose, recomputed, a, halt)
    }
}

impl Orchestrator {
    pub closed spec fn current_caller(self) -> Caller {
        self.caller
    }

    pub closed spec fn current_session(self) -> Session {
        self.session
    }

    pub closed spec fn pending(self) -> Seq<Seq<char>> {
        pane_id_views(self.pending@)
    }

    pub closed spec fn next(self) -> nat {
        self.next as nat
    }

    /// The action decided from the current caller and session.
    pub open spec fn decided(self) -> ActionView {
        spec_decide(self.current_caller(), self.current_session(), self.target(), self.policy())
    }

    fn execute_action(&mut self, action: Action, halt: Halt) -> (s: Step)
        requires
            old(self).inspections@ <= 2,
            old(self).recomputed ==> old(self).inspections@ == 2,
            !old(self).recomputed ==> old(self).inspections@ == 1 && !spec_is_create(action@),
        ensures
            (s@ is Finish) == (final(self).stage == Stage::Finished),
            s@ == spec_execute(action@, halt),
            final(self).wf(),
            final(self).target == old(self).target,
            final(self).caller_cwd == old(self).caller_cwd,
            final(self).policy == old(self).policy,
            final(self).inspections == old(self).inspections,
            final(self).recomputed == old(self).recomputed,
            final(self).caller == old(self).caller,
            final(self).session == old(self).session,
            final(self).snapshot == old(self).snapshot,
            final(self).pending == old(self).pending,
            final(self).next == old(self).next,
            s@ matches StepView::Perform(_) ==> final(self).stage == Stage::Acting && final(self).action() == action@,
    {
        if let Err(e) = check(halt) {
            return self.finish(Err(e));
        }
        let request = match &action {
            Action::NoOp => {
                return self.finish(Ok(Outcome::Silent));
            },
            Action::ChangeDirectory { path } => {
                let path = path.duplicate();
                return self.finish(Ok(Outcome::ChangeDirectory { path }));
            },
            Action::FocusPane { pane_id } => Request::FocusPane { pane_id: pane_id.duplicate() },
            Action::CreateTab { workspace_id, cwd } => Request::CreateTab { workspace_id: workspace_id.duplicate(), cwd: cwd.duplicate() },
            Action::CreateWorkspace { cwd } => Request::CreateWorkspace { cwd: cwd.duplicate() },
        };
        self.stage = Stage::Acting;
        self.action = Some(action);
        Step::Perform(request)
    }

    /// The preparation returned: decide, then recheck or execute.
    fn prepare_view(&mut self, halt: Halt) -> (s: Step)
        requires
            old(self).inspections@ <= 2,
            (old(self).purpose == Purpose::Initial && old(self).inspections@ == 1 + if old(self).prepare_recomputed { 1nat } else { 0nat })
                || (old(self).purpose != Purpose::Initial && old(self).prepare_recomputed && old(self).inspections@ == 2),
        ensures
            s@ matches StepView::Perform(RequestView::InspectSession) ==> final(self).inspections@ == old(self).inspections@ + 1,
            !(s@ matches StepView::Perform(RequestView::InspectSession)) ==> final(self).inspections@ == old(self).inspections@,
            (s@ is Finish) == (final(self).stage == Stage::Finished),
            s@ == spec_after_prepare(old(self).purpose, old(self).prepare_recomputed, old(self).decided(), halt),
            final(self).wf(),
            final(self).target == old(self).target,
            final(self).caller_cwd == old(self).caller_cwd,
            final(self).policy == old(self).policy,
            final(self).caller == old(self).caller,
            final(self).session == old(self).session,
            final(self).snapshot == old(self).snapshot,
            final(self).pending == old(self).pending,
            final(self).next == old(self).next,
            s@ matches StepView::Perform(RequestView::InspectSession) ==> final(self).purpose == Purpose::Recheck,
            s@ matches StepView::Perform(r) && !(r is InspectSession) ==> final(self).action() == old(self).decided()
                && final(self).recomputed == (old(self).purpose != Purpose::Initial || old(self).prepare_recomputed)
                && final(self).stage == Stage::Acting,
    {
        let action = decide(&self.caller, &self.session, &self.target, &self.policy);
        let r = self.prepare_recomputed;
        match self.purpose {
            Purpose::Initial => {
                self.recomputed = r;
                if is_create(&action) && !r {
                    if let Err(e) = check(halt) {
                        return self.finish(Err(e));
                    }
                    self.purpose = Purpose::Recheck;
                    self.prepare_recomputed = true;
                    self.load_view(halt)
                } else {
                    self.execute_action(action, halt)
                }
            },
            _ => {
                self.recomputed = true;
                self.execute_action(action, halt)
            },
        }
    }

    fn fill_shell_evidence(&mut self, halt: Halt) -> (s: Step)
        requires
            old(self).inspections@ <= 2,
            (old(self).purpose == Purpose::Initial && old(self).inspections@ == 1 + if old(self).prepare_recomputed { 1nat } else { 0nat })
                || (old(self).purpose != Purpose::Initial && old(self).prepare_recomputed && old(self).inspections@ == 2),
            old(self).next <= old(self).pending@.len(),
            old(self).caller.cwd@ != old(self).target@,
            forall|i: int| 0 <= i < old(self).pending@.len() ==> names_unproven_shell(old(self).snapshot@, old(self).target@, #[trigger] old(self).pending@[i]@),
        ensures
            s@ matches StepView::Perform(RequestView::InspectSession) ==> final(self).inspections@ == old(self).inspections@ + 1,
            !(s@ matches StepView::Perform(RequestView::InspectSession)) ==> final(self).inspections@ == old(self).inspections@,
            (s@ is Finish) == (final(self).stage == Stage::Finished),
            s@ == spec_fill_continue(old(self).pending(), old(self).next(), old(self).purpose, old(self).prepare_recomputed, old(self).decided(), halt),
            final(self).wf(),
            final(self).target == old(self).target,
            final(self).caller_cwd == old(self).caller_cwd,
            final(self).policy == old(self).policy,
            final(self).caller == old(self).caller,
            final(self).session == old(self).session,
            final(self).snapshot == old(self).snapshot,
            final(self).pending == old(self).pending,
            final(self).next == old(self).next,
            s@ matches StepView::Perform(RequestView::InspectProcess { .. }) ==> final(self).stage == Stage::Filling,
            s@ matches StepView::Perform(RequestView::InspectSession) ==> final(self).purpose == Purpose::Recheck,
            s@ matches StepView::Perform(r) && !(r is InspectSession) && !(r is InspectProcess) ==> final(self).action() == old(self).decided()
                && final(self).recomputed == (old(self).purpose != Purpose::Initial || old(self).prepare_recomputed)
                && final(self).stage == Stage::Acting,
    {
        if self.next < self.pending.len() {
            let pane_id = self.pending[self.next].duplicate();
            self.stage = Stage::Filling;
            Step::Perform(Request::InspectProcess { pane_id })
        } else {
            self.prepare_view(halt)
        }
    }
}


pub open spec fn action_error(a: ActionView, code: Seq<char>, message: Seq<char>) -> RunErrorView {
    RunErrorView::Failed(ErrorView { kind: ErrorKind::HerdrAction, message: not_found_message(a, code, message) })
}

fn not_found_error(action: &Action, code: &str, message: &str) -> (e: RunError)
    ensures
        e@ == action_error(action@, code@, message@),
{
    let what = match action {
        Action::FocusPane { .. } => "pane focus failed after recomputation: ",
        Action::CreateTab { .. } => "tab creation failed after recomputation: ",
        _ => "workspace creation failed after recomputation: ",
    };
    let with_code = concat(what, code);
    let with_sep = concat(with_code.as_str(), ": ");
    let text = concat(with_sep.as_str(), message);
    RunError::Failed(Error::herdr_action(text))
}

impl Orchestrator {
    /// Hand back the result of the requested Herdr operation and get the next
    /// step. At most one recomputation happens, so at most two session
    /// inspections; creation is only ever requested from a recomputed view;
    /// process evidence is only requested for exact-path shell panes without
    /// it, and never when the caller already stands at the target.
    pub fn orchestrate_inside(&mut self, reply: Reply, halt: Halt) -> (s: Step)
        requires
            old(self).wf(),
            old(self).awaits(&reply),
        ensures
            s@ matches StepView::Perform(RequestView::InspectSession) ==> final(self).inspections() == old(self).inspections() + 1,
            !(s@ matches StepView::Perform(RequestView::InspectSession)) ==> final(self).inspections() == old(self).inspections(),
            final(self).wf(),
            final(self).target() == old(self).target(),
            final(self).caller_cwd() == old(self).caller_cwd(),
            final(self).policy() == old(self).policy(),
            final(self).inspections() <= 2,
            s@ matches StepView::Perform(RequestView::CreateTab { .. }) ==> final(self).recomputed() && final(self).inspections() == 2,
            s@ matches StepView::Perform(RequestView::CreateWorkspace { .. }) ==> final(self).recomputed() && final(self).inspections() == 2,
            s@ matches StepView::Perform(RequestView::InspectProcess { pane_id }) ==> names_unproven_shell(final(self).snapshot(), final(self).target(), pane_id)
                && final(self).current_caller().cwd@ != final(self).target(),
            s@ matches StepView::Finish(Ok(OutcomeView::ChangeDirectory { path })) ==> path == final(self).target(),
            s@ matches StepView::Finish(_) <==> final(self).stage() == Stage::Finished,
            reply matches Reply::Failed(e) ==> s@ == StepView::Finish(Err(spec_map_halt(e@, halt.interrupted))),
            reply matches Reply::Session(SessionInspection::Stale) ==> s@ == if old(self).prepare_recomputed() {
                StepView::Finish(Err(RunErrorView::Failed(stale_error())))
            } else {
                spec_reinspect(halt)
            },
            reply matches Reply::Session(SessionInspection::Ready { live, session }) ==> {
                &&& final(self).snapshot() == session
                &&& final(self).current_session() == session
                &&& final(self).current_caller().cwd@ == old(self).caller_cwd()
                &&& final(self).current_caller().workspace_id@ == live.workspace_id@
                &&& final(self).current_caller().tab_id@ == live.tab_id@
                &&& final(self).current_caller().pane_id@ == live.pane_id@
                &&& if old(self).caller_cwd() == old(self).target() {
                    s@ == spec_after_prepare(old(self).purpose(), old(self).prepare_recomputed(), final(self).decided(), halt)
                } else {
                    &&& final(self).pending() == spec_fill_targets(session, old(self).target())
                    &&& s@ == spec_fill_continue(final(self).pending(), 0, old(self).purpose(), old(self).prepare_recomputed(), final(self).decided(), halt)
                }
            },
            reply matches Reply::Process(ProcessInspection::Evidence(e)) ==> {
                &&& evidence_applied(old(self).current_session(), old(self).pending()[old(self).next() as int], e, final(self).current_session())
                &&& final(self).pending() == old(self).pending()
                &&& s@ == spec_fill_continue(old(self).pending(), old(self).next() + 1, old(self).purpose(), old(self).prepare_recomputed(), final(self).decided(), halt)
            },
            reply matches Reply::Process(ProcessInspection::NotFound) ==> if !old(self).prepare_recomputed() {
                s@ == spec_reinspect(halt)
            } else {
                &&& final(self).current_session() == old(self).current_session()
                &&& s@ == spec_fill_continue(old(self).pending(), old(self).next() + 1, old(self).purpose(), old(self).prepare_recomputed(), old(self).decided(), halt)
            },
            reply matches Reply::Focus(FocusResult::Focused) ==> s@ == StepView::Finish(Ok(OutcomeView::Silent)),
            reply matches Reply::Create(CommandResult::Completed(_)) ==> s@ == StepView::Finish(Ok(OutcomeView::Silent)),
            reply matches Reply::Focus(FocusResult::NotFound { code, message }) ==> s@ == if old(self).recomputed() {
                StepView::Finish(Err(action_error(old(self).action(), code@, message@)))
            } else {
                spec_reinspect(halt)
            },
            reply matches Reply::Create(CommandResult::NotFound { code, message }) ==> s@ == if old(self).recomputed() {
                StepView::Finish(Err(action_error(old(self).action(), code@, message@)))
            } else {
                spec_reinspect(halt)
            },
    {
        match reply {
            Reply::Failed(e) => {
                let mapped = map_halt(e, halt.interrupted);
                self.finish(Err(mapped))
            },
            Reply::Session(SessionInspection::Stale) => {
                if self.prepare_recomputed {
                    self.finish(Err(RunError::Failed(Error::herdr_protocol(String::from_str("live caller is absent from the session snapshot")))))
                } else {
                    self.prepare_recomputed = true;
                    self.load_view(halt)
                }
            },
            Reply::Session(SessionInspection::Ready { live, session }) => {
                let caller = Caller {
                    cwd: self.caller_cwd.duplicate(),
                    workspace_id: live.workspace_id,
                    tab_id: live.tab_id,
                    pane_id: live.pane_id,
                };
                self.snapshot = Ghost(session);
                let at_target = caller.cwd.same_as(&self.target);
                self.caller = caller;
                if at_target {
                    self.session = session;
                    return self.prepare_view(halt);
                }
                let pending = fill_targets(&session, &self.target);
                self.session = session;
                self.pending = pending;
                self.next = 0;
                self.stage = Stage::Filling;
                self.fill_shell_evidence(halt)
            },
            Reply::Process(ProcessInspection::Evidence(evidence)) => {
                let pane_id = self.pending[self.next].duplicate();
                apply_shell_evidence(&mut self.session, &pane_id, evidence);
                assert(self.next < self.pending.len());
                self.next = self.next + 1;
                self.fill_shell_evidence(halt)
            },
            Reply::Process(ProcessInspection::NotFound) => {
                if !self.prepare_recomputed {
                    self.prepare_recomputed = true;
                    self.load_view(halt)
                } else {
                    assert(self.next < self.pending.len());
                    self.next = self.next + 1;
                    self.fill_shell_evidence(halt)
                }
            },
            Reply::Focus(FocusResult::Focused) => self.finish(Ok(Outcome::Silent)),
            Reply::Create(CommandResult::Completed(_)) => self.finish(Ok(Outcome::Silent)),
            Reply::Focus(FocusResult::NotFound { code, message }) => self.action_not_found(code, message, halt),
            Reply::Create(CommandResult::NotFound { code, message }) => self.action_not_found(code, message, halt),
        }
    }

    fn action_not_found(&mut self, code: String, message: String, halt: Halt) -> (s: Step)
        requires
            old(self).wf(),
            old(self).stage == Stage::Acting,
        ensures
            s@ matches StepView::Perform(RequestView::InspectSession) ==> final(self).inspections@ == old(self).inspections@ + 1,
            !(s@ matches StepView::Perform(RequestView::InspectSession)) ==> final(self).inspections@ == old(self).inspections@,
            (s@ is Finish) == (final(self).stage == Stage::Finished),
            final(self).wf(),
            final(self).target == old(self).target,
            final(self).caller_cwd == old(self).caller_cwd,
            final(self).policy == old(self).policy,
            final(self).stage == Stage::Finished || final(self).stage == Stage::Loading,
            s@ == if old(self).recomputed {
                StepView::Finish(Err(action_error(old(self).action(), code@, message@)))
            } else {
                spec_reinspect(halt)
            },
    {
        if self.recomputed {
            let error = match &self.action {
                Some(action) => not_found_error(action, code.as_str(), message.as_str()),
                None => not_found_error(&Action::NoOp, code.as_str(), message.as_str()),
            };
            self.finish(Err(error))
        } else {
            self.purpose = Purpose::Retry;
            self.prepare_recomputed = true;
            self.load_view(halt)
        }
    }
}


/// Caller environment writes for an outcome, in order: a directory change
/// writes the canonical old directory to `OLDPWD`, then the target to
/// `PWD`; a silent outcome writes nothing.
pub fn history_updates(outcome: &Outcome, caller_cwd: &CanonicalPath) -> (r: Vec<(String, String)>)
    ensures
        outcome is Silent ==> r@.len() == 0,
        outcome matches Outcome::ChangeDirectory { path } ==> {
            &&& r@.len() == 2
            &&& r@[0].0@ == "OLDPWD"@ && r@[0].1@ == crate::path::text_of(caller_cwd@)
            &&& r@[1].0@ == "PWD"@ && r@[1].1@ == crate::path::text_of(path@)
        },
{
    let mut updates: Vec<(String, String)> = Vec::new();
    if let Outcome::ChangeDirectory { path } = outcome {
        updates.push((String::from_str("OLDPWD"), caller_cwd.as_str()));
        updates.push((String::from_str("PWD"), path.as_str()));
    }
    updates
}

} // verus!
