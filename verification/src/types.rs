//! Typed session views, idle evidence, and navigation actions.

use vstd::prelude::*;

use crate::path::CanonicalPath;
use crate::text::str_equal;

verus! {

/// Workspace identifier as Herdr reports it.
#[derive(Debug, Clone, PartialEq, Eq, Hash)]
pub struct WorkspaceId(String);

/// Tab identifier as Herdr reports it.
#[derive(Debug, Clone, PartialEq, Eq, Hash)]
pub struct TabId(String);

/// Pane identifier as Herdr reports it.
#[derive(Debug, Clone, PartialEq, Eq, Hash)]
pub struct PaneId(String);

impl View for WorkspaceId {
    type V = Seq<char>;

    closed spec fn view(&self) -> Seq<char> {
        self.0@
    }
}

impl View for TabId {
    type V = Seq<char>;

    closed spec fn view(&self) -> Seq<char> {
        self.0@
    }
}

impl View for PaneId {
    type V = Seq<char>;

    closed spec fn view(&self) -> Seq<char> {
        self.0@
    }
}

impl WorkspaceId {
    pub fn new(id: &str) -> (r: Self)
        ensures
            r@ == id@,
    {
        WorkspaceId(String::from_str(id))
    }

    pub fn as_str(&self) -> (s: &str)
        ensures
            s@ == self@,
    {
        self.0.as_str()
    }

    pub fn same(&self, other: &Self) -> (r: bool)
        ensures
            r == (self@ == other@),
    {
        str_equal(self.0.as_str(), other.0.as_str())
    }

    pub fn duplicate(&self) -> (r: Self)
        ensures
            r@ == self@,
    {
        WorkspaceId(self.0.clone())
    }
}

impl TabId {
    pub fn new(id: &str) -> (r: Self)
        ensures
            r@ == id@,
    {
        TabId(String::from_str(id))
    }

    pub fn as_str(&self) -> (s: &str)
        ensures
            s@ == self@,
    {
        self.0.as_str()
    }

    pub fn same(&self, other: &Self) -> (r: bool)
        ensures
            r == (self@ == other@),
    {
        str_equal(self.0.as_str(), other.0.as_str())
    }

    pub fn duplicate(&self) -> (r: Self)
        ensures
            r@ == self@,
    {
        TabId(self.0.clone())
    }
}

impl PaneId {
    pub fn new(id: &str) -> (r: Self)
        ensures
            r@ == id@,
    {
        PaneId(String::from_str(id))
    }

    pub fn as_str(&self) -> (s: &str)
        ensures
            s@ == self@,
    {
        self.0.as_str()
    }

    pub fn same(&self, other: &Self) -> (r: bool)
        ensures
            r == (self@ == other@),
    {
        str_equal(self.0.as_str(), other.0.as_str())
    }

    pub fn duplicate(&self) -> (r: Self)
        ensures
            r@ == self@,
    {
        PaneId(self.0.clone())
    }
}

/// Agent status as reported by Herdr for an agent pane.
#[derive(Debug, Clone, Copy, PartialEq, Eq, Structural)]
pub enum AgentStatus {
    Idle,
    Done,
    Working,
    Blocked,
    Unknown,
}

/// Agent statuses that make an agent pane reusable. `unknown` never does.
#[derive(Debug, Clone, Copy, PartialEq, Eq)]
pub struct AgentIdlePolicy {
    idle: bool,
    done: bool,
    working: bool,
    blocked: bool,
}

impl AgentIdlePolicy {
    /// Whether the policy treats an agent in `status` as reusable.
    pub closed spec fn permits(self, status: AgentStatus) -> bool {
        match status {
            AgentStatus::Idle => self.idle,
            AgentStatus::Done => self.done,
            AgentStatus::Working => self.working,
            AgentStatus::Blocked => self.blocked,
            AgentStatus::Unknown => false,
        }
    }

    /// The backward-compatible default: `[idle done]`.
    pub fn default_policy() -> (p: Self)
        ensures
            forall|s: AgentStatus| p.permits(s) <==> (s == AgentStatus::Idle || s == AgentStatus::Done),
    {
        AgentIdlePolicy { idle: true, done: true, working: false, blocked: false }
    }

    /// Exactly the listed statuses, with set semantics; `unknown` is ignored.
    pub fn from_statuses(statuses: &[AgentStatus]) -> (p: Self)
        ensures
            forall|s: AgentStatus| p.permits(s) <==> (s != AgentStatus::Unknown && statuses@.contains(s)),
    {
        let mut p = AgentIdlePolicy { idle: false, done: false, working: false, blocked: false };
        let mut i: usize = 0;
        while i < statuses.len()
            invariant
                i <= statuses@.len(),
                forall|s: AgentStatus| p.permits(s) <==> (s != AgentStatus::Unknown && statuses@.subrange(0, i as int).contains(s)),
            decreases statuses@.len() - i,
        {
            let s = statuses[i];
            let ghost old_p = p;
            match s {
                AgentStatus::Idle => { p.idle = true; },
                AgentStatus::Done => { p.done = true; },
                AgentStatus::Working => { p.working = true; },
                AgentStatus::Blocked => { p.blocked = true; },
                AgentStatus::Unknown => {},
            }
            proof {
                assert forall|t: AgentStatus| p.permits(t) <==> (old_p.permits(t) || (t == s && t != AgentStatus::Unknown)) by {
                    match t {
                        AgentStatus::Idle => {},
                        AgentStatus::Done => {},
                        AgentStatus::Working => {},
                        AgentStatus::Blocked => {},
                        AgentStatus::Unknown => {},
                    }
                }
                let prev = statuses@.subrange(0, i as int);
                let next = statuses@.subrange(0, i + 1);
                assert(next =~= prev.push(s));
                assert forall|t: AgentStatus| next.contains(t) <==> (prev.contains(t) || t == s) by {
                    if next.contains(t) {
                        let k = choose|k: int| 0 <= k < next.len() && next[k] == t;
                        if k < prev.len() { assert(prev[k] == t); }
                    }
                    if prev.contains(t) {
                        let k = choose|k: int| 0 <= k < prev.len() && prev[k] == t;
                        assert(next[k] == t);
                    }
                    if t == s { assert(next[i as int] == t); }
                }
            }
            i += 1;
        }
        assert(statuses@.subrange(0, statuses@.len() as int) =~= statuses@);
        p
    }

    /// Whether an agent in `status` is reusable under this policy.
    pub fn allows(&self, status: AgentStatus) -> (r: bool)
        ensures
            r == self.permits(status),
    {
        match status {
            AgentStatus::Idle => self.idle,
            AgentStatus::Done => self.done,
            AgentStatus::Working => self.working,
            AgentStatus::Blocked => self.blocked,
            AgentStatus::Unknown => false,
        }
    }
}

impl Default for AgentIdlePolicy {
    fn default() -> (p: Self)
        ensures
            forall|s: AgentStatus| p.permits(s) <==> (s == AgentStatus::Idle || s == AgentStatus::Done),
    {
        Self::default_policy()
    }
}

/// No policy makes an agent with an unknown status reusable.
pub proof fn law_unknown_status_is_never_reusable(policy: AgentIdlePolicy)
    ensures
        !policy.permits(AgentStatus::Unknown),
{
}

/// One foreground process of a pane's terminal.
#[derive(Debug, Clone, Copy, PartialEq, Eq, Structural)]
pub struct ForegroundProcess {
    pub pid: u32,
}

/// Already-collected `pane process-info` fields used to prove an idle shell.
#[derive(Debug, Clone, PartialEq, Eq)]
pub struct ShellProcessEvidence {
    pub shell_pid: Option<u32>,
    pub foreground_process_group_id: Option<u32>,
    pub foreground_processes: Vec<ForegroundProcess>,
}

/// The shell is the only foreground process, with a known process group.
pub open spec fn proves_idle_shell(e: ShellProcessEvidence) -> bool {
    e.shell_pid is Some && e.foreground_process_group_id is Some && e.foreground_processes@.len() == 1
        && e.foreground_processes@[0].pid == e.shell_pid->0
}

impl ShellProcessEvidence {
    pub fn proves_idle_interactive_shell(&self) -> (r: bool)
        ensures
            r == proves_idle_shell(*self),
    {
        let shell_pid = match self.shell_pid {
            Some(pid) => pid,
            None => return false,
        };
        if self.foreground_process_group_id.is_none() {
            return false;
        }
        self.foreground_processes.len() == 1 && self.foreground_processes[0].pid == shell_pid
    }

    pub fn duplicate(&self) -> (r: Self)
        ensures
            r.shell_pid == self.shell_pid,
            r.foreground_process_group_id == self.foreground_process_group_id,
            r.foreground_processes@ == self.foreground_processes@,
    {
        let mut processes: Vec<ForegroundProcess> = Vec::new();
        let mut i: usize = 0;
        while i < self.foreground_processes.len()
            invariant
                i <= self.foreground_processes.len(),
                processes@ == self.foreground_processes@.subrange(0, i as int),
            decreases self.foreground_processes.len() - i,
        {
            processes.push(self.foreground_processes[i]);
            i += 1;
            assert(processes@ =~= self.foreground_processes@.subrange(0, i as int));
        }
        assert(processes@ =~= self.foreground_processes@);
        ShellProcessEvidence {
            shell_pid: self.shell_pid,
            foreground_process_group_id: self.foreground_process_group_id,
            foreground_processes: processes,
        }
    }
}

/// Pane occupant after agent detection. Missing evidence is ineligible.
#[derive(Debug, Clone, PartialEq, Eq)]
pub enum Occupant {
    Shell(Option<ShellProcessEvidence>),
    Agent(AgentStatus),
}

/// Whether an occupant is reusable: a shell only with complete foreground
/// proof, an agent only when the policy permits its status.
pub open spec fn occupant_idle(o: Occupant, policy: AgentIdlePolicy) -> bool {
    match o {
        Occupant::Shell(None) => false,
        Occupant::Shell(Some(e)) => proves_idle_shell(e),
        Occupant::Agent(s) => policy.permits(s),
    }
}

impl Occupant {
    /// Reusability under the given agent policy.
    pub fn is_idle_under(&self, policy: &AgentIdlePolicy) -> (r: bool)
        ensures
            r == occupant_idle(*self, *policy),
    {
        match self {
            Occupant::Shell(None) => false,
            Occupant::Shell(Some(evidence)) => evidence.proves_idle_interactive_shell(),
            Occupant::Agent(status) => policy.allows(*status),
        }
    }

    /// Reusability under the default agent policy `[idle done]`.
    pub fn is_idle(&self) -> (r: bool)
        ensures
            r == occupant_idle(*self, AgentIdlePolicy::spec_default()),
    {
        self.is_idle_under(&AgentIdlePolicy::default_policy())
    }
}

impl AgentIdlePolicy {
    pub closed spec fn spec_default() -> Self {
        AgentIdlePolicy { idle: true, done: true, working: false, blocked: false }
    }

    /// The default policy makes exactly idle and done agents reusable.
    pub proof fn law_default_policy_is_idle_and_done(s: AgentStatus)
        ensures
            Self::spec_default().permits(s) <==> (s == AgentStatus::Idle || s == AgentStatus::Done),
    {
    }
}

/// The agent policy has no effect on whether a shell pane is reusable.
pub proof fn law_policy_only_affects_agents(evidence: Option<ShellProcessEvidence>, a: AgentIdlePolicy, b: AgentIdlePolicy)
    ensures
        occupant_idle(Occupant::Shell(evidence), a) == occupant_idle(Occupant::Shell(evidence), b),
{
}

/// A pane in the session snapshot.
#[derive(Debug, Clone, PartialEq, Eq)]
pub struct Pane {
    pub id: PaneId,
    pub foreground_cwd: Option<CanonicalPath>,
    pub occupant: Occupant,
}

/// Whether an optional canonical path is exactly `target`.
pub open spec fn opt_path_is(p: Option<CanonicalPath>, target: Seq<Seq<char>>) -> bool {
    p matches Some(c) && c@ == target
}

/// A pane is eligible at `target` when its canonical foreground directory is
/// exactly `target` and its occupant is reusable.
pub open spec fn pane_eligible(p: Pane, target: Seq<Seq<char>>, policy: AgentIdlePolicy) -> bool {
    opt_path_is(p.foreground_cwd, target) && occupant_idle(p.occupant, policy)
}

impl Pane {
    pub fn is_eligible_under(&self, target: &CanonicalPath, policy: &AgentIdlePolicy) -> (r: bool)
        ensures
            r == pane_eligible(*self, target@, *policy),
    {
        let at_target = match &self.foreground_cwd {
            Some(cwd) => cwd.same_as(target),
            None => false,
        };
        at_target && self.occupant.is_idle_under(policy)
    }

    /// Eligibility under the default agent policy.
    pub fn is_eligible_at(&self, target: &CanonicalPath) -> (r: bool)
        ensures
            r == pane_eligible(*self, target@, AgentIdlePolicy::spec_default()),
    {
        self.is_eligible_under(target, &AgentIdlePolicy::default_policy())
    }
}

/// A tab and its panes in snapshot order.
#[derive(Debug, Clone, PartialEq, Eq)]
pub struct Tab {
    pub id: TabId,
    pub focused_pane_id: Option<PaneId>,
    pub panes: Vec<Pane>,
}

/// A workspace, its optional canonical root, and its tabs in snapshot order.
#[derive(Debug, Clone, PartialEq, Eq)]
pub struct Workspace {
    pub id: WorkspaceId,
    pub root: Option<CanonicalPath>,
    pub focused_tab_id: Option<TabId>,
    pub tabs: Vec<Tab>,
    pub label: String,
    pub number: usize,
}

/// Authoritative session snapshot already mapped away from transport JSON.
#[derive(Debug, Clone, PartialEq, Eq)]
pub struct Session {
    pub focused_workspace_id: Option<WorkspaceId>,
    pub workspaces: Vec<Workspace>,
}

/// Live caller identity used by the inside-Herdr decision function.
#[derive(Debug, Clone, PartialEq, Eq)]
pub struct Caller {
    pub cwd: CanonicalPath,
    pub workspace_id: WorkspaceId,
    pub tab_id: TabId,
    pub pane_id: PaneId,
}

/// Navigation action produced by the pure decision function.
#[derive(Debug, Clone, PartialEq, Eq)]
pub enum Action {
    NoOp,
    ChangeDirectory { path: CanonicalPath },
    FocusPane { pane_id: PaneId },
    CreateTab { workspace_id: WorkspaceId, cwd: CanonicalPath },
    CreateWorkspace { cwd: CanonicalPath },
}

/// Abstract value of an action.
pub enum ActionView {
    NoOp,
    ChangeDirectory { path: Seq<Seq<char>> },
    FocusPane { pane_id: Seq<char> },
    CreateTab { workspace_id: Seq<char>, cwd: Seq<Seq<char>> },
    CreateWorkspace { cwd: Seq<Seq<char>> },
}

impl View for Action {
    type V = ActionView;

    open spec fn view(&self) -> ActionView {
        match self {
            Action::NoOp => ActionView::NoOp,
            Action::ChangeDirectory { path } => ActionView::ChangeDirectory { path: path@ },
            Action::FocusPane { pane_id } => ActionView::FocusPane { pane_id: pane_id@ },
            Action::CreateTab { workspace_id, cwd } => ActionView::CreateTab { workspace_id: workspace_id@, cwd: cwd@ },
            Action::CreateWorkspace { cwd } => ActionView::CreateWorkspace { cwd: cwd@ },
        }
    }
}

} // verus!
