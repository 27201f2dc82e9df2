//! Read-only Herdr inspection results and their mapping onto session types.

use vstd::prelude::*;

use crate::error::{Error, ErrorKind, ErrorView};
use crate::herdr::protocol::{CommandResult, require_supported_version, spec_require_supported};
use crate::path::CanonicalPath;
use crate::text::{chars_of, concat, str_equal};
use crate::types::{AgentStatus, ForegroundProcess, Occupant, Pane, PaneId, Session, ShellProcessEvidence, Tab, TabId, Workspace, WorkspaceId, opt_path_is};

verus! {

/// Live caller identity from `herdr pane current --current`.
#[derive(Debug, Clone, PartialEq, Eq)]
pub struct LiveCaller {
    pub workspace_id: WorkspaceId,
    pub tab_id: TabId,
    pub pane_id: PaneId,
}

/// Snapshot plus live caller, or a stale identity to recompute.
#[derive(Debug, Clone, PartialEq, Eq)]
pub enum SessionInspection {
    Ready { live: LiveCaller, session: Session },
    Stale,
}

/// `pane process-info` outcome. Incomplete evidence is ineligible, not an
/// error.
#[derive(Debug, Clone, PartialEq, Eq)]
pub enum ProcessInspection {
    Evidence(ShellProcessEvidence),
    NotFound,
}

/// The pane at `(w, t, p)`.
pub open spec fn pane_at(s: Session, w: int, t: int, p: int) -> Pane {
    s.workspaces@[w].tabs@[t].panes@[p]
}

pub open spec fn valid_pos(s: Session, w: int, t: int, p: int) -> bool {
    0 <= w < s.workspaces@.len() && 0 <= t < s.workspaces@[w].tabs@.len() && 0 <= p < s.workspaces@[w].tabs@[t].panes@.len()
}

/// A shell pane whose canonical foreground directory is exactly `target`.
pub open spec fn shell_candidate(s: Session, target: Seq<Seq<char>>, w: int, t: int, p: int) -> bool {
    valid_pos(s, w, t, p) && opt_path_is(pane_at(s, w, t, p).foreground_cwd, target) && pane_at(s, w, t, p).occupant is Shell
}

/// Snapshot order of pane positions.
pub open spec fn pos_lt(a: (int, int, int), b: (int, int, int)) -> bool {
    a.0 < b.0 || (a.0 == b.0 && (a.1 < b.1 || (a.1 == b.1 && a.2 < b.2)))
}

pub open spec fn pos_of(x: (usize, usize, usize)) -> (int, int, int) {
    (x.0 as int, x.1 as int, x.2 as int)
}

/// Positions of the shell panes already at `target`, in snapshot order.
pub fn exact_path_shell_candidates(session: &Session, target: &CanonicalPath) -> (r: Vec<(usize, usize, usize)>)
    ensures
        forall|i: int| 0 <= i < r@.len() ==> shell_candidate(*session, target@, r@[i].0 as int, r@[i].1 as int, r@[i].2 as int),
        forall|i: int, j: int| 0 <= i < j < r@.len() ==> pos_lt(pos_of(#[trigger] r@[i]), pos_of(#[trigger] r@[j])),
        forall|w: int, t: int, p: int| #[trigger] shell_candidate(*session, target@, w, t, p)
            ==> exists|i: int| 0 <= i < r@.len() && pos_of(#[trigger] r@[i]) == (w, t, p),
{
    let ghost s = *session;
    let mut out: Vec<(usize, usize, usize)> = Vec::new();
    let mut wi: usize = 0;
    while wi < session.workspaces.len()
        invariant
            s == *session,
            wi <= s.workspaces@.len(),
            forall|i: int| 0 <= i < out@.len() ==> shell_candidate(s, target@, out@[i].0 as int, out@[i].1 as int, out@[i].2 as int),
            forall|i: int| 0 <= i < out@.len() ==> out@[i].0 < wi,
            forall|i: int, j: int| 0 <= i < j < out@.len() ==> pos_lt(pos_of(#[trigger] out@[i]), pos_of(#[trigger] out@[j])),
            forall|w: int, t: int, p: int| #[trigger] shell_candidate(s, target@, w, t, p) && w < wi
                ==> exists|i: int| 0 <= i < out@.len() && pos_of(#[trigger] out@[i]) == (w, t, p),
        decreases s.workspaces@.len() - wi,
    {
        let mut ti: usize = 0;
        while ti < session.workspaces[wi].tabs.len()
            invariant
                s == *session,
                wi < s.workspaces@.len(),
                ti <= s.workspaces@[wi as int].tabs@.len(),
                forall|i: int| 0 <= i < out@.len() ==> shell_candidate(s, target@, out@[i].0 as int, out@[i].1 as int, out@[i].2 as int),
                forall|i: int| 0 <= i < out@.len() ==> out@[i].0 < wi || (out@[i].0 == wi && out@[i].1 < ti),
                forall|i: int, j: int| 0 <= i < j < out@.len() ==> pos_lt(pos_of(#[trigger] out@[i]), pos_of(#[trigger] out@[j])),
                forall|w: int, t: int, p: int| #[trigger] shell_candidate(s, target@, w, t, p) && (w < wi || (w == wi && t < ti))
                    ==> exists|i: int| 0 <= i < out@.len() && pos_of(#[trigger] out@[i]) == (w, t, p),
            decreases s.workspaces@[wi as int].tabs@.len() - ti,
        {
            let mut pi: usize = 0;
            while pi < session.workspaces[wi].tabs[ti].panes.len()
                invariant
                    s == *session,
                    wi < s.workspaces@.len(),
                    ti < s.workspaces@[wi as int].tabs@.len(),
                    pi <= s.workspaces@[wi as int].tabs@[ti as int].panes@.len(),
                    forall|i: int| 0 <= i < out@.len() ==> shell_candidate(s, target@, out@[i].0 as int, out@[i].1 as int, out@[i].2 as int),
                    forall|i: int| 0 <= i < out@.len() ==> out@[i].0 < wi || (out@[i].0 == wi && (out@[i].1 < ti || (out@[i].1 == ti && out@[i].2 < pi))),
                    forall|i: int, j: int| 0 <= i < j < out@.len() ==> pos_lt(pos_of(#[trigger] out@[i]), pos_of(#[trigger] out@[j])),
                    forall|w: int, t: int, p: int| #[trigger] shell_candidate(s, target@, w, t, p) && (w < wi || (w == wi && (t < ti || (t == ti && p < pi))))
                        ==> exists|i: int| 0 <= i < out@.len() && pos_of(#[trigger] out@[i]) == (w, t, p),
                decreases s.workspaces@[wi as int].tabs@[ti as int].panes@.len() - pi,
            {
                let pane = &session.workspaces[wi].tabs[ti].panes[pi];
                let at_target = match &pane.foreground_cwd {
                    Some(cwd) => cwd.same_as(target),
                    None => false,
                };
                let is_shell = match &pane.occupant {
                    Occupant::Shell(_) => true,
                    Occupant::Agent(_) => false,
                };
                let ghost before = out@;
                if at_target && is_shell {
                    out.push((wi, ti, pi));
                    proof {
                        assert(shell_candidate(s, target@, wi as int, ti as int, pi as int));
                        assert forall|w: int, t: int, p: int| #[trigger] shell_candidate(s, target@, w, t, p) && (w < wi || (w == wi && (t < ti || (t == ti && p < pi + 1))))
                            implies exists|i: int| 0 <= i < out@.len() && pos_of(#[trigger] out@[i]) == (w, t, p) by {
                            if w == wi && t == ti && p == pi {
                                assert(pos_of(out@[before.len() as int]) == (w, t, p));
                            } else {
                                let i = choose|i: int| 0 <= i < before.len() && pos_of(#[trigger] before[i]) == (w, t, p);
                                assert(out@[i] == before[i]);
                            }
                        }
                    }
                } else {
                    proof {
                        assert forall|w: int, t: int, p: int| #[trigger] shell_candidate(s, target@, w, t, p) && (w < wi || (w == wi && (t < ti || (t == ti && p < pi + 1))))
                            implies exists|i: int| 0 <= i < out@.len() && pos_of(#[trigger] out@[i]) == (w, t, p) by {
                            if w == wi && t == ti && p == pi {
                                assert(!shell_candidate(s, target@, w, t, p));
                            }
                        }
                    }
                }
                pi += 1;
            }
            ti += 1;
        }
        wi += 1;
    }
    out
}

/// The first pane with identifier `id` sits at `(w, t, p)`.
pub open spec fn first_pane_at(s: Session, id: Seq<char>, w: int, t: int, p: int) -> bool {
    &&& valid_pos(s, w, t, p)
    &&& pane_at(s, w, t, p).id@ == id
    &&& forall|w2: int, t2: int, p2: int| #[trigger] valid_pos(s, w2, t2, p2) && pos_lt((w2, t2, p2), (w, t, p)) ==> pane_at(s, w2, t2, p2).id@ != id
}

/// `after` is `before` with `evidence` recorded on the first pane with
/// identifier `id` when that pane is a shell; otherwise it is `before`.
pub open spec fn evidence_applied(before: Session, id: Seq<char>, evidence: ShellProcessEvidence, after: Session) -> bool {
    &&& after.focused_workspace_id == before.focused_workspace_id
    &&& (forall|w: int, t: int, p: int| !first_pane_at(before, id, w, t, p)) ==> after == before
    &&& forall|w: int, t: int, p: int| #[trigger] first_pane_at(before, id, w, t, p) ==> {
        let ws = before.workspaces@[w];
        let tab = ws.tabs@[t];
        let pane = tab.panes@[p];
        let new_pane = if pane.occupant is Shell {
            Pane { id: pane.id, foreground_cwd: pane.foreground_cwd, occupant: Occupant::Shell(Some(evidence)) }
        } else {
            pane
        };
        &&& after.workspaces@.len() == before.workspaces@.len()
        &&& forall|w2: int| 0 <= w2 < before.workspaces@.len() && w2 != w ==> after.workspaces@[w2] == before.workspaces@[w2]
        &&& after.workspaces@[w].id == ws.id
        &&& after.workspaces@[w].root == ws.root
        &&& after.workspaces@[w].focused_tab_id == ws.focused_tab_id
        &&& after.workspaces@[w].label == ws.label
        &&& after.workspaces@[w].number == ws.number
        &&& after.workspaces@[w].tabs@.len() == ws.tabs@.len()
        &&& forall|t2: int| 0 <= t2 < ws.tabs@.len() && t2 != t ==> after.workspaces@[w].tabs@[t2] == ws.tabs@[t2]
        &&& after.workspaces@[w].tabs@[t].id == tab.id
        &&& after.workspaces@[w].tabs@[t].focused_pane_id == tab.focused_pane_id
        &&& after.workspaces@[w].tabs@[t].panes@ == tab.panes@.update(p, new_pane)
    }
}

/// Record process evidence on the first pane with `pane_id`, when that pane
/// is a shell; agents and unknown ids leave the session unchanged.
pub fn apply_shell_evidence(session: &mut Session, pane_id: &PaneId, evidence: ShellProcessEvidence)
    ensures
        evidence_applied(*old(session), pane_id@, evidence, *final(session)),
{
    let ghost s = *session;
    let mut wi: usize = 0;
    while wi < session.workspaces.len()
        invariant
            s == *session,
            s == *old(session),
            wi <= s.workspaces@.len(),
            forall|w2: int, t2: int, p2: int| #[trigger] valid_pos(s, w2, t2, p2) && w2 < wi ==> pane_at(s, w2, t2, p2).id@ != pane_id@,
        decreases s.workspaces@.len() - wi,
    {
        let mut ti: usize = 0;
        while ti < session.workspaces[wi].tabs.len()
            invariant
                s == *session,
                s == *old(session),
                wi < s.workspaces@.len(),
                ti <= s.workspaces@[wi as int].tabs@.len(),
                forall|w2: int, t2: int, p2: int| #[trigger] valid_pos(s, w2, t2, p2) && (w2 < wi || (w2 == wi && t2 < ti)) ==> pane_at(s, w2, t2, p2).id@ != pane_id@,
            decreases s.workspaces@[wi as int].tabs@.len() - ti,
        {
            let mut pi: usize = 0;
            while pi < session.workspaces[wi].tabs[ti].panes.len()
                invariant
                    s == *session,
                    s == *old(session),
                    wi < s.workspaces@.len(),
                    ti < s.workspaces@[wi as int].tabs@.len(),
                    pi <= s.workspaces@[wi as int].tabs@[ti as int].panes@.len(),
                    forall|w2: int, t2: int, p2: int| #[trigger] valid_pos(s, w2, t2, p2) && (w2 < wi || (w2 == wi && (t2 < ti || (t2 == ti && p2 < pi)))) ==> pane_at(s, w2, t2, p2).id@ != pane_id@,
                decreases s.workspaces@[wi as int].tabs@[ti as int].panes@.len() - pi,
            {
                if session.workspaces[wi].tabs[ti].panes[pi].id.same(pane_id) {
                    proof {
                        assert(first_pane_at(s, pane_id@, wi as int, ti as int, pi as int));
                        assert forall|w: int, t: int, p: int| #[trigger] first_pane_at(s, pane_id@, w, t, p) implies (w, t, p) == (wi as int, ti as int, pi as int) by {
                            if pos_lt((w, t, p), (wi as int, ti as int, pi as int)) {
                                assert(valid_pos(s, w, t, p));
                            } else if pos_lt((wi as int, ti as int, pi as int), (w, t, p)) {
                                assert(valid_pos(s, wi as int, ti as int, pi as int));
                            }
                        }
                    }
                    let is_shell = match &session.workspaces[wi].tabs[ti].panes[pi].occupant {
                        Occupant::Shell(_) => true,
                        Occupant::Agent(_) => false,
                    };
                    if is_shell {
                        let mut ws = session.workspaces.remove(wi);
                        let mut tab = ws.tabs.remove(ti);
                        let mut pane = tab.panes.remove(pi);
                        pane.occupant = Occupant::Shell(Some(evidence));
                        tab.panes.insert(pi, pane);
                        ws.tabs.insert(ti, tab);
                        session.workspaces.insert(wi, ws);
                        proof {
                            assert(session.workspaces@ =~= s.workspaces@.update(wi as int, session.workspaces@[wi as int]));
                            assert(session.workspaces@[wi as int].tabs@ =~= s.workspaces@[wi as int].tabs@.update(ti as int, session.workspaces@[wi as int].tabs@[ti as int]));
                            assert(session.workspaces@[wi as int].tabs@[ti as int].panes@ =~= s.workspaces@[wi as int].tabs@[ti as int].panes@.update(pi as int, pane_at(*session, wi as int, ti as int, pi as int)));
                        }
                    } else {
                        proof {
                            let panes = s.workspaces@[wi as int].tabs@[ti as int].panes@;
                            assert(panes.update(pi as int, panes[pi as int]) =~= panes);
                        }
                    }
                    assert(evidence_applied(s, pane_id@, evidence, *session));
                    return;
                }
                pi += 1;
            }
            ti += 1;
        }
        wi += 1;
    }
    proof {
        assert forall|w: int, t: int, p: int| !first_pane_at(s, pane_id@, w, t, p) by {
            if first_pane_at(s, pane_id@, w, t, p) {
                assert(valid_pos(s, w, t, p));
            }
        }
    }
}


/// An exact-path shell pane without process evidence: its foreground
/// process must be inspected before deciding.
pub open spec fn needs_process_info(s: Session, target: Seq<Seq<char>>, w: int, t: int, p: int) -> bool {
    shell_candidate(s, target, w, t, p) && pane_at(s, w, t, p).occupant matches Occupant::Shell(None)
}

/// `id` names some exact-path shell pane without process evidence.
pub open spec fn names_unproven_shell(s: Session, target: Seq<Seq<char>>, id: Seq<char>) -> bool {
    exists|w: int, t: int, p: int| needs_process_info(s, target, w, t, p) && pane_at(s, w, t, p).id@ == id
}

pub open spec fn pane_fill_ids(p: Pane, target: Seq<Seq<char>>) -> Seq<Seq<char>> {
    if opt_path_is(p.foreground_cwd, target) && p.occupant matches Occupant::Shell(None) {
        seq![p.id@]
    } else {
        seq![]
    }
}

pub open spec fn tab_fill_ids(tab: Tab, target: Seq<Seq<char>>) -> Seq<Seq<char>> {
    tab.panes@.map_values(|p: Pane| pane_fill_ids(p, target)).flatten()
}

pub open spec fn workspace_fill_ids(w: Workspace, target: Seq<Seq<char>>) -> Seq<Seq<char>> {
    w.tabs@.map_values(|t: Tab| tab_fill_ids(t, target)).flatten()
}

/// Identifiers of the panes that need process evidence, in snapshot order.
pub open spec fn spec_fill_targets(s: Session, target: Seq<Seq<char>>) -> Seq<Seq<char>> {
    s.workspaces@.map_values(|w: Workspace| workspace_fill_ids(w, target)).flatten()
}

pub open spec fn pane_id_views(v: Seq<PaneId>) -> Seq<Seq<char>> {
    v.map_values(|p: PaneId| p@)
}

/// Identifiers of the exact-path shell panes without process evidence.
pub fn fill_targets(session: &Session, target: &CanonicalPath) -> (r: Vec<PaneId>)
    ensures
        pane_id_views(r@) == spec_fill_targets(*session, target@),
        forall|i: int| 0 <= i < r@.len() ==> names_unproven_shell(*session, target@, #[trigger] r@[i]@),
{
    let ghost s = *session;
    let ghost tg = target@;
    let ghost wf = |w: Workspace| workspace_fill_ids(w, tg);
    let mut out: Vec<PaneId> = Vec::new();
    let mut wi: usize = 0;
    while wi < session.workspaces.len()
        invariant
            s == *session,
            tg == target@,
            wf == |w: Workspace| workspace_fill_ids(w, tg),
            wi <= s.workspaces@.len(),
            pane_id_views(out@) == s.workspaces@.take(wi as int).map_values(wf).flatten(),
            forall|i: int| 0 <= i < out@.len() ==> names_unproven_shell(s, tg, #[trigger] out@[i]@),
        decreases s.workspaces@.len() - wi,
    {
        let ghost w = s.workspaces@[wi as int];
        let ghost prefix = pane_id_views(out@);
        let ghost tf = |t: Tab| tab_fill_ids(t, tg);
        let mut ti: usize = 0;
        while ti < session.workspaces[wi].tabs.len()
            invariant
                s == *session,
                tg == target@,
                wi < s.workspaces@.len(),
                w == s.workspaces@[wi as int],
                tf == |t: Tab| tab_fill_ids(t, tg),
                ti <= w.tabs@.len(),
                pane_id_views(out@) == prefix + w.tabs@.take(ti as int).map_values(tf).flatten(),
                forall|i: int| 0 <= i < out@.len() ==> names_unproven_shell(s, tg, #[trigger] out@[i]@),
            decreases w.tabs@.len() - ti,
        {
            let ghost tab = w.tabs@[ti as int];
            let ghost tab_prefix = pane_id_views(out@);
            let ghost pf = |p: Pane| pane_fill_ids(p, tg);
            let mut pi: usize = 0;
            while pi < session.workspaces[wi].tabs[ti].panes.len()
                invariant
                    s == *session,
                    tg == target@,
                    wi < s.workspaces@.len(),
                    w == s.workspaces@[wi as int],
                    ti < w.tabs@.len(),
                    tab == w.tabs@[ti as int],
                    pf == |p: Pane| pane_fill_ids(p, tg),
                    pi <= tab.panes@.len(),
                    pane_id_views(out@) == tab_prefix + tab.panes@.take(pi as int).map_values(pf).flatten(),
                    forall|i: int| 0 <= i < out@.len() ==> names_unproven_shell(s, tg, #[trigger] out@[i]@),
                decreases tab.panes@.len() - pi,
            {
                let pane = &session.workspaces[wi].tabs[ti].panes[pi];
                let ghost before = out@;
                let at_target = match &pane.foreground_cwd {
                    Some(cwd) => cwd.same_as(target),
                    None => false,
                };
                let unproven = match &pane.occupant {
                    Occupant::Shell(None) => true,
                    _ => false,
                };
                if at_target && unproven {
                    out.push(pane.id.duplicate());
                    proof {
                        assert(needs_process_info(s, tg, wi as int, ti as int, pi as int));
                        assert forall|i: int| 0 <= i < out@.len() implies names_unproven_shell(s, tg, #[trigger] out@[i]@) by {
                            if i < before.len() {
                                assert(out@[i] == before[i]);
                            } else {
                                assert(out@[i]@ == pane_at(s, wi as int, ti as int, pi as int).id@);
                                assert(needs_process_info(s, tg, wi as int, ti as int, pi as int));
                            }
                        }
                    }
                }
                assert(pane_id_views(out@) =~= pane_id_views(before) + pf(*pane));
                assert(tab.panes@.take(pi + 1).map_values(pf) =~= tab.panes@.take(pi as int).map_values(pf).push(pf(*pane)));
                proof { tab.panes@.take(pi as int).map_values(pf).lemma_flatten_push(pf(*pane)); }
                pi += 1;
            }
            assert(tab.panes@.take(tab.panes@.len() as int) =~= tab.panes@);
            assert(w.tabs@.take(ti + 1).map_values(tf) =~= w.tabs@.take(ti as int).map_values(tf).push(tf(tab)));
            proof { w.tabs@.take(ti as int).map_values(tf).lemma_flatten_push(tf(tab)); }
            ti += 1;
        }
        assert(w.tabs@.take(w.tabs@.len() as int) =~= w.tabs@);
        assert(s.workspaces@.take(wi + 1).map_values(wf) =~= s.workspaces@.take(wi as int).map_values(wf).push(wf(w)));
        proof { s.workspaces@.take(wi as int).map_values(wf).lemma_flatten_push(wf(w)); }
        wi += 1;
    }
    assert(s.workspaces@.take(s.workspaces@.len() as int) =~= s.workspaces@);
    out
}


/// Agent status spelling in Herdr snapshots.
#[derive(Debug, Clone, Copy, PartialEq, Eq, Structural)]
pub enum RawAgentStatus {
    Idle,
    Working,
    Blocked,
    Done,
    Unknown,
}

/// A snapshot workspace. `worktree` is present when Herdr reports a
/// worktree, holding its checkout path as canonicalized, `None` inside when
/// that path is not an enterable directory.
#[derive(Debug, Clone, PartialEq, Eq)]
pub struct RawWorkspace {
    pub workspace_id: String,
    pub number: usize,
    pub label: String,
    pub active_tab_id: String,
    pub worktree: Option<Option<CanonicalPath>>,
}

/// A snapshot tab.
#[derive(Debug, Clone, PartialEq, Eq)]
pub struct RawTab {
    pub tab_id: String,
    pub workspace_id: String,
}

/// A snapshot pane. Its `cwd` and `foreground_cwd` are held as
/// canonicalized; `None` when absent or not an enterable directory.
#[derive(Debug, Clone, PartialEq, Eq)]
pub struct RawPane {
    pub pane_id: String,
    pub workspace_id: String,
    pub tab_id: String,
    pub focused: bool,
    pub agent_status: RawAgentStatus,
    pub agent: Option<String>,
    pub cwd: Option<CanonicalPath>,
    pub foreground_cwd: Option<CanonicalPath>,
}

/// A snapshot layout: the focused pane of a tab.
#[derive(Debug, Clone, PartialEq, Eq)]
pub struct RawLayout {
    pub workspace_id: String,
    pub tab_id: String,
    pub focused_pane_id: String,
}

/// A decoded session snapshot.
#[derive(Debug, Clone, PartialEq, Eq)]
pub struct RawSnapshot {
    pub version: String,
    pub protocol: u32,
    pub focused_workspace_id: Option<String>,
    pub workspaces: Vec<RawWorkspace>,
    pub tabs: Vec<RawTab>,
    pub panes: Vec<RawPane>,
    pub layouts: Vec<RawLayout>,
}

/// A `pane process-info` payload.
#[derive(Debug, Clone, PartialEq, Eq)]
pub struct RawProcessInfo {
    pub pane_id: String,
    pub shell_pid: Option<u32>,
    pub foreground_process_group_id: Option<u32>,
    pub foreground_pids: Vec<u32>,
}

pub open spec fn spec_agent_status(s: RawAgentStatus) -> AgentStatus {
    match s {
        RawAgentStatus::Idle => AgentStatus::Idle,
        RawAgentStatus::Working => AgentStatus::Working,
        RawAgentStatus::Blocked => AgentStatus::Blocked,
        RawAgentStatus::Done => AgentStatus::Done,
        RawAgentStatus::Unknown => AgentStatus::Unknown,
    }
}

pub fn map_agent_status(status: RawAgentStatus) -> (r: AgentStatus)
    ensures
        r == spec_agent_status(status),
{
    match status {
        RawAgentStatus::Idle => AgentStatus::Idle,
        RawAgentStatus::Working => AgentStatus::Working,
        RawAgentStatus::Blocked => AgentStatus::Blocked,
        RawAgentStatus::Done => AgentStatus::Done,
        RawAgentStatus::Unknown => AgentStatus::Unknown,
    }
}

/// Process evidence exactly as reported: shell pid, process group, and the
/// foreground processes' pids in order.
pub fn map_process_evidence(info: &RawProcessInfo) -> (e: ShellProcessEvidence)
    ensures
        e.shell_pid == info.shell_pid,
        e.foreground_process_group_id == info.foreground_process_group_id,
        e.foreground_processes@.len() == info.foreground_pids@.len(),
        forall|i: int| 0 <= i < info.foreground_pids@.len() ==> (#[trigger] e.foreground_processes@[i]).pid == info.foreground_pids@[i],
{
    let mut processes: Vec<ForegroundProcess> = Vec::new();
    let mut i: usize = 0;
    while i < info.foreground_pids.len()
        invariant
            i <= info.foreground_pids@.len(),
            processes@.len() == i,
            forall|j: int| 0 <= j < i ==> (#[trigger] processes@[j]).pid == info.foreground_pids@[j],
        decreases info.foreground_pids@.len() - i,
    {
        processes.push(ForegroundProcess { pid: info.foreground_pids[i] });
        i += 1;
    }
    ShellProcessEvidence {
        shell_pid: info.shell_pid,
        foreground_process_group_id: info.foreground_process_group_id,
        foreground_processes: processes,
    }
}

pub open spec fn snapshot_error(message: Seq<char>) -> ErrorView {
    ErrorView { kind: ErrorKind::HerdrProtocol, message }
}

pub open spec fn missing_snapshot_id(kind: Seq<char>) -> ErrorView {
    snapshot_error("session snapshot "@ + kind + " is missing an id"@)
}

pub fn require_id(kind: &str, id: &str) -> (r: Result<(), Error>)
    ensures
        r is Ok <==> id@.len() > 0,
        r matches Err(e) ==> e@ == missing_snapshot_id(kind@),
{
    if chars_of(id).len() == 0 {
        let head = concat("session snapshot ", kind);
        Err(Error::herdr_protocol(concat(head.as_str(), " is missing an id")))
    } else {
        Ok(())
    }
}

/// First structural error of the workspace list: a missing or repeated id.
pub open spec fn workspace_list_error(ws: Seq<RawWorkspace>) -> Option<ErrorView>
    decreases ws.len(),
{
    if ws.len() == 0 {
        None
    } else if workspace_list_error(ws.drop_last()) is Some {
        workspace_list_error(ws.drop_last())
    } else if ws.last().workspace_id@.len() == 0 {
        Some(missing_snapshot_id("workspace"@))
    } else if exists|j: int| 0 <= j < ws.len() - 1 && (#[trigger] ws[j]).workspace_id@ == ws.last().workspace_id@ {
        Some(snapshot_error("session snapshot contains a duplicate workspace id"@))
    } else {
        None
    }
}

/// First structural error of the tab list: a missing id or an unknown
/// workspace.
pub open spec fn tab_list_error(tabs: Seq<RawTab>, ws: Seq<RawWorkspace>) -> Option<ErrorView>
    decreases tabs.len(),
{
    if tabs.len() == 0 {
        None
    } else if tab_list_error(tabs.drop_last(), ws) is Some {
        tab_list_error(tabs.drop_last(), ws)
    } else if tabs.last().tab_id@.len() == 0 {
        Some(missing_snapshot_id("tab"@))
    } else if !exists|j: int| 0 <= j < ws.len() && (#[trigger] ws[j]).workspace_id@ == tabs.last().workspace_id@ {
        Some(snapshot_error("session snapshot tab references an unknown workspace"@))
    } else {
        None
    }
}

/// First structural error of the pane list: a missing id or an unknown tab.
pub open spec fn pane_list_error(panes: Seq<RawPane>, tabs: Seq<RawTab>) -> Option<ErrorView>
    decreases panes.len(),
{
    if panes.len() == 0 {
        None
    } else if pane_list_error(panes.drop_last(), tabs) is Some {
        pane_list_error(panes.drop_last(), tabs)
    } else if panes.last().pane_id@.len() == 0 {
        Some(missing_snapshot_id("pane"@))
    } else if !exists|j: int| 0 <= j < tabs.len() && (#[trigger] tabs[j]).tab_id@ == panes.last().tab_id@ {
        Some(snapshot_error("session snapshot pane references an unknown tab"@))
    } else {
        None
    }
}

/// The snapshot's first structural error: workspaces, then tabs, then panes.
pub open spec fn snapshot_structure_error(raw: RawSnapshot) -> Option<ErrorView> {
    if workspace_list_error(raw.workspaces@) is Some {
        workspace_list_error(raw.workspaces@)
    } else if tab_list_error(raw.tabs@, raw.workspaces@) is Some {
        tab_list_error(raw.tabs@, raw.workspaces@)
    } else {
        pane_list_error(raw.panes@, raw.tabs@)
    }
}

proof fn lemma_workspace_error_prefix(ws: Seq<RawWorkspace>, n: int)
    requires
        0 <= n <= ws.len(),
        workspace_list_error(ws.take(n)) is Some,
    ensures
        workspace_list_error(ws) == workspace_list_error(ws.take(n)),
    decreases ws.len() - n,
{
    if n < ws.len() {
        assert(ws.take(n + 1).drop_last() =~= ws.take(n));
        lemma_workspace_error_prefix(ws, n + 1);
    } else {
        assert(ws.take(n) =~= ws);
    }
}

proof fn lemma_tab_error_prefix(tabs: Seq<RawTab>, ws: Seq<RawWorkspace>, n: int)
    requires
        0 <= n <= tabs.len(),
        tab_list_error(tabs.take(n), ws) is Some,
    ensures
        tab_list_error(tabs, ws) == tab_list_error(tabs.take(n), ws),
    decreases tabs.len() - n,
{
    if n < tabs.len() {
        assert(tabs.take(n + 1).drop_last() =~= tabs.take(n));
        lemma_tab_error_prefix(tabs, ws, n + 1);
    } else {
        assert(tabs.take(n) =~= tabs);
    }
}

proof fn lemma_pane_error_prefix(panes: Seq<RawPane>, tabs: Seq<RawTab>, n: int)
    requires
        0 <= n <= panes.len(),
        pane_list_error(panes.take(n), tabs) is Some,
    ensures
        pane_list_error(panes, tabs) == pane_list_error(panes.take(n), tabs),
    decreases panes.len() - n,
{
    if n < panes.len() {
        assert(panes.take(n + 1).drop_last() =~= panes.take(n));
        lemma_pane_error_prefix(panes, tabs, n + 1);
    } else {
        assert(panes.take(n) =~= panes);
    }
}

fn validate_snapshot(raw: &RawSnapshot) -> (r: Result<(), Error>)
    ensures
        match r {
            Ok(()) => snapshot_structure_error(*raw) is None,
            Err(e) => snapshot_structure_error(*raw) == Some(e@),
        },
{
    let mut i: usize = 0;
    while i < raw.workspaces.len()
        invariant
            i <= raw.workspaces@.len(),
            workspace_list_error(raw.workspaces@.take(i as int)) is None,
        decreases raw.workspaces@.len() - i,
    {
        let ghost t = raw.workspaces@.take(i + 1);
        assert(t.drop_last() =~= raw.workspaces@.take(i as int));
        if let Err(e) = require_id("workspace", raw.workspaces[i].workspace_id.as_str()) {
            proof { lemma_workspace_error_prefix(raw.workspaces@, i + 1); }
            return Err(e);
        }
        let mut j: usize = 0;
        while j < i
            invariant
                j <= i < raw.workspaces@.len(),
                t == raw.workspaces@.take(i + 1),
                t.drop_last() == raw.workspaces@.take(i as int),
                workspace_list_error(raw.workspaces@.take(i as int)) is None,
                t.last().workspace_id@.len() > 0,
                forall|k: int| 0 <= k < j ==> (#[trigger] t[k]).workspace_id@ != t.last().workspace_id@,
            decreases i - j,
        {
            if str_equal(raw.workspaces[j].workspace_id.as_str(), raw.workspaces[i].workspace_id.as_str()) {
                proof {
                    assert(t[j as int].workspace_id@ == t.last().workspace_id@);
                    lemma_workspace_error_prefix(raw.workspaces@, i + 1);
                }
                return Err(Error::herdr_protocol(String::from_str("session snapshot contains a duplicate workspace id")));
            }
            j += 1;
        }
        i += 1;
    }
    assert(raw.workspaces@.take(raw.workspaces@.len() as int) =~= raw.workspaces@);
    let mut i: usize = 0;
    while i < raw.tabs.len()
        invariant
            i <= raw.tabs@.len(),
            workspace_list_error(raw.workspaces@) is None,
            tab_list_error(raw.tabs@.take(i as int), raw.workspaces@) is None,
        decreases raw.tabs@.len() - i,
    {
        let ghost t = raw.tabs@.take(i + 1);
        assert(t.drop_last() =~= raw.tabs@.take(i as int));
        if let Err(e) = require_id("tab", raw.tabs[i].tab_id.as_str()) {
            proof { lemma_tab_error_prefix(raw.tabs@, raw.workspaces@, i + 1); }
            return Err(e);
        }
        let mut j: usize = 0;
        let mut known = false;
        while j < raw.workspaces.len()
            invariant
                j <= raw.workspaces@.len(),
                i < raw.tabs@.len(),
                known <==> exists|k: int| 0 <= k < j && (#[trigger] raw.workspaces@[k]).workspace_id@ == raw.tabs@[i as int].workspace_id@,
            decreases raw.workspaces@.len() - j,
        {
            if str_equal(raw.workspaces[j].workspace_id.as_str(), raw.tabs[i].workspace_id.as_str()) {
                known = true;
            }
            j += 1;
        }
        if !known {
            proof { lemma_tab_error_prefix(raw.tabs@, raw.workspaces@, i + 1); }
            return Err(Error::herdr_protocol(String::from_str("session snapshot tab references an unknown workspace")));
        }
        i += 1;
    }
    assert(raw.tabs@.take(raw.tabs@.len() as int) =~= raw.tabs@);
    let mut i: usize = 0;
    while i < raw.panes.len()
        invariant
            i <= raw.panes@.len(),
            workspace_list_error(raw.workspaces@) is None,
            tab_list_error(raw.tabs@, raw.workspaces@) is None,
            pane_list_error(raw.panes@.take(i as int), raw.tabs@) is None,
        decreases raw.panes@.len() - i,
    {
        let ghost t = raw.panes@.take(i + 1);
        assert(t.drop_last() =~= raw.panes@.take(i as int));
        if let Err(e) = require_id("pane", raw.panes[i].pane_id.as_str()) {
            proof { lemma_pane_error_prefix(raw.panes@, raw.tabs@, i + 1); }
            return Err(e);
        }
        let mut j: usize = 0;
        let mut known = false;
        while j < raw.tabs.len()
            invariant
                j <= raw.tabs@.len(),
                i < raw.panes@.len(),
                known <==> exists|k: int| 0 <= k < j && (#[trigger] raw.tabs@[k]).tab_id@ == raw.panes@[i as int].tab_id@,
            decreases raw.tabs@.len() - j,
        {
            if str_equal(raw.tabs[j].tab_id.as_str(), raw.panes[i].tab_id.as_str()) {
                known = true;
            }
            j += 1;
        }
        if !known {
            proof { lemma_pane_error_prefix(raw.panes@, raw.tabs@, i + 1); }
            return Err(Error::herdr_protocol(String::from_str("session snapshot pane references an unknown tab")));
        }
        i += 1;
    }
    assert(raw.panes@.take(raw.panes@.len() as int) =~= raw.panes@);
    Ok(())
}


proof fn lemma_filter_none<A>(s: Seq<A>, pred: spec_fn(A) -> bool)
    requires
        forall|j: int| 0 <= j < s.len() ==> !pred(#[trigger] s[j]),
    ensures
        s.filter(pred).len() == 0,
    decreases s.len(),
{
    if s.len() > 0 {
        lemma_filter_none(s.drop_last(), pred);
        s.drop_last().lemma_filter_push(s.last(), pred);
        assert(s.drop_last().push(s.last()) =~= s);
    }
}

/// The first element kept by a filter is the first element satisfying it.
proof fn lemma_filter_first<A>(s: Seq<A>, pred: spec_fn(A) -> bool, i: int)
    requires
        0 <= i < s.len(),
        pred(s[i]),
        forall|j: int| 0 <= j < i ==> !pred(#[trigger] s[j]),
    ensures
        s.filter(pred).len() > 0,
        s.filter(pred)[0] == s[i],
{
    let a = s.take(i);
    let rest = s.skip(i + 1);
    assert(s =~= a + (seq![s[i]] + rest));
    Seq::filter_distributes_over_add(a, seq![s[i]] + rest, pred);
    lemma_filter_none(a, pred);
    rest.lemma_filter_prepend(s[i], pred);
    assert(a.filter(pred) =~= Seq::<A>::empty());
}

pub open spec fn opt_cp(o: Option<CanonicalPath>) -> Option<Seq<Seq<char>>> {
    match o {
        Some(p) => Some(p@),
        None => None,
    }
}

/// An agent pane when Herdr names an agent, otherwise a shell pane whose
/// process is not yet inspected.
pub open spec fn spec_occupant(raw: RawPane) -> Occupant {
    match raw.agent {
        Some(a) => if a@.len() > 0 { Occupant::Agent(spec_agent_status(raw.agent_status)) } else { Occupant::Shell(None) },
        None => Occupant::Shell(None),
    }
}

pub open spec fn pane_maps(raw: RawPane, p: Pane) -> bool {
    &&& p.id@ == raw.pane_id@
    &&& opt_cp(p.foreground_cwd) == opt_cp(raw.foreground_cwd)
    &&& p.occupant == spec_occupant(raw)
}

fn duplicate_path(o: &Option<CanonicalPath>) -> (r: Option<CanonicalPath>)
    ensures
        opt_cp(r) == opt_cp(*o),
{
    match o {
        Some(p) => Some(p.duplicate()),
        None => None,
    }
}

pub fn map_pane(pane: &RawPane) -> (p: Pane)
    ensures
        pane_maps(*pane, p),
{
    let is_agent = match &pane.agent {
        Some(a) => chars_of(a.as_str()).len() > 0,
        None => false,
    };
    let occupant = if is_agent { Occupant::Agent(map_agent_status(pane.agent_status)) } else { Occupant::Shell(None) };
    Pane { id: PaneId::new(pane.pane_id.as_str()), foreground_cwd: duplicate_path(&pane.foreground_cwd), occupant }
}

pub open spec fn panes_in(panes: Seq<RawPane>, tab: Seq<char>) -> Seq<RawPane> {
    panes.filter(|p: RawPane| p.tab_id@ == tab)
}

pub open spec fn tabs_in(tabs: Seq<RawTab>, workspace: Seq<char>) -> Seq<RawTab> {
    tabs.filter(|t: RawTab| t.workspace_id@ == workspace)
}

/// The tab's focused pane: the first layout's, else the first pane flagged
/// focused; kept only when it is one of the tab's panes.
pub open spec fn spec_focused_pane(raw: RawSnapshot, tab: Seq<char>) -> Option<Seq<char>> {
    let layouts = raw.layouts@.filter(|l: RawLayout| l.tab_id@ == tab);
    let flagged = raw.panes@.filter(|p: RawPane| p.tab_id@ == tab && p.focused);
    let candidate = if layouts.len() > 0 {
        Some(layouts[0].focused_pane_id@)
    } else if flagged.len() > 0 {
        Some(flagged[0].pane_id@)
    } else {
        None
    };
    match candidate {
        Some(id) => if exists|i: int| 0 <= i < panes_in(raw.panes@, tab).len() && (#[trigger] panes_in(raw.panes@, tab)[i]).pane_id@ == id {
            Some(id)
        } else {
            None
        },
        None => None,
    }
}

pub open spec fn opt_pane_id(o: Option<PaneId>) -> Option<Seq<char>> {
    match o {
        Some(p) => Some(p@),
        None => None,
    }
}

pub open spec fn tab_maps(raw: RawSnapshot, rt: RawTab, t: Tab) -> bool {
    let panes = panes_in(raw.panes@, rt.tab_id@);
    &&& t.id@ == rt.tab_id@
    &&& opt_pane_id(t.focused_pane_id) == spec_focused_pane(raw, rt.tab_id@)
    &&& t.panes@.len() == panes.len()
    &&& forall|k: int| 0 <= k < panes.len() ==> pane_maps(panes[k], #[trigger] t.panes@[k])
}

fn first_layout_focus(raw: &RawSnapshot, tab: &str) -> (r: Option<String>)
    ensures
        ({
            let layouts = raw.layouts@.filter(|l: RawLayout| l.tab_id@ == tab@);
            &&& r is Some <==> layouts.len() > 0
            &&& r matches Some(id) ==> id@ == layouts[0].focused_pane_id@
        }),
{
    let ghost pred = |l: RawLayout| l.tab_id@ == tab@;
    let mut i: usize = 0;
    while i < raw.layouts.len()
        invariant
            i <= raw.layouts@.len(),
            pred == |l: RawLayout| l.tab_id@ == tab@,
            forall|j: int| 0 <= j < i ==> !pred(#[trigger] raw.layouts@[j]),
        decreases raw.layouts@.len() - i,
    {
        if str_equal(raw.layouts[i].tab_id.as_str(), tab) {
            proof { lemma_filter_first(raw.layouts@, pred, i as int); }
            return Some(raw.layouts[i].focused_pane_id.clone());
        }
        i += 1;
    }
    proof { lemma_filter_none(raw.layouts@, pred); }
    None
}

fn first_flagged_focus(raw: &RawSnapshot, tab: &str) -> (r: Option<String>)
    ensures
        ({
            let flagged = raw.panes@.filter(|p: RawPane| p.tab_id@ == tab@ && p.focused);
            &&& r is Some <==> flagged.len() > 0
            &&& r matches Some(id) ==> id@ == flagged[0].pane_id@
        }),
{
    let ghost pred = |p: RawPane| p.tab_id@ == tab@ && p.focused;
    let mut i: usize = 0;
    while i < raw.panes.len()
        invariant
            i <= raw.panes@.len(),
            pred == |p: RawPane| p.tab_id@ == tab@ && p.focused,
            forall|j: int| 0 <= j < i ==> !pred(#[trigger] raw.panes@[j]),
        decreases raw.panes@.len() - i,
    {
        if raw.panes[i].focused && str_equal(raw.panes[i].tab_id.as_str(), tab) {
            proof { lemma_filter_first(raw.panes@, pred, i as int); }
            return Some(raw.panes[i].pane_id.clone());
        }
        i += 1;
    }
    proof { lemma_filter_none(raw.panes@, pred); }
    None
}

pub fn map_tab(tab: &RawTab, raw: &RawSnapshot) -> (t: Tab)
    ensures
        tab_maps(*raw, *tab, t),
{
    let ghost pred = |p: RawPane| p.tab_id@ == tab.tab_id@;
    let mut panes: Vec<Pane> = Vec::new();
    let mut i: usize = 0;
    while i < raw.panes.len()
        invariant
            i <= raw.panes@.len(),
            pred == |p: RawPane| p.tab_id@ == tab.tab_id@,
            panes@.len() == raw.panes@.take(i as int).filter(pred).len(),
            forall|k: int| 0 <= k < panes@.len() ==> pane_maps(raw.panes@.take(i as int).filter(pred)[k], #[trigger] panes@[k]),
        decreases raw.panes@.len() - i,
    {
        let ghost before = raw.panes@.take(i as int);
        assert(raw.panes@.take(i + 1) =~= before.push(raw.panes@[i as int]));
        proof { before.lemma_filter_push(raw.panes@[i as int], pred); }
        if str_equal(raw.panes[i].tab_id.as_str(), tab.tab_id.as_str()) {
            let p = map_pane(&raw.panes[i]);
            panes.push(p);
        }
        i += 1;
    }
    assert(raw.panes@.take(raw.panes@.len() as int) =~= raw.panes@);
    let candidate = match first_layout_focus(raw, tab.tab_id.as_str()) {
        Some(id) => Some(id),
        None => first_flagged_focus(raw, tab.tab_id.as_str()),
    };
    let ghost mapped = panes_in(raw.panes@, tab.tab_id@);
    let focused_pane_id = match candidate {
        Some(id) => {
            let mut k: usize = 0;
            let mut found = false;
            while k < panes.len()
                invariant
                    k <= panes@.len(),
                    panes@.len() == mapped.len(),
                    forall|j: int| 0 <= j < panes@.len() ==> pane_maps(mapped[j], #[trigger] panes@[j]),
                    found <==> exists|j: int| 0 <= j < k && (#[trigger] mapped[j]).pane_id@ == id@,
                decreases panes@.len() - k,
            {
                assert(pane_maps(mapped[k as int], panes@[k as int]));
                if panes[k].id.same(&PaneId::new(id.as_str())) {
                    found = true;
                }
                k += 1;
            }
            if found { Some(PaneId::new(id.as_str())) } else { None }
        },
        None => None,
    };
    Tab { id: TabId::new(tab.tab_id.as_str()), focused_pane_id, panes }
}


/// A workspace's root: its worktree checkout when Herdr reports one,
/// otherwise the working directory of the first pane of its first tab.
pub open spec fn spec_workspace_root(raw: RawSnapshot, rw: RawWorkspace) -> Option<Seq<Seq<char>>> {
    match rw.worktree {
        Some(checkout) => opt_cp(checkout),
        None => {
            let tabs = tabs_in(raw.tabs@, rw.workspace_id@);
            if tabs.len() == 0 {
                None
            } else {
                let panes = panes_in(raw.panes@, tabs[0].tab_id@);
                if panes.len() == 0 { None } else { opt_cp(panes[0].cwd) }
            }
        },
    }
}

/// A workspace's root does not depend on which of its tabs is active, nor
/// on its label or number: with the same id and worktree, it is the same.
pub proof fn law_workspace_root_ignores_active_tab(raw: RawSnapshot, rw: RawWorkspace, other: RawWorkspace)
    requires
        other.workspace_id@ == rw.workspace_id@,
        other.worktree == rw.worktree,
    ensures
        spec_workspace_root(raw, other) == spec_workspace_root(raw, rw),
{
}

/// Without a worktree, a workspace's root is the working directory of the
/// first listed pane of its first listed tab: `t` is the first snapshot tab
/// of the workspace and `p` the first snapshot pane of that tab.
pub proof fn law_workspace_root_is_first_pane_of_first_tab(raw: RawSnapshot, rw: RawWorkspace, t: int, p: int)
    requires
        rw.worktree is None,
        0 <= t < raw.tabs@.len(),
        raw.tabs@[t].workspace_id@ == rw.workspace_id@,
        forall|j: int| 0 <= j < t ==> (#[trigger] raw.tabs@[j]).workspace_id@ != rw.workspace_id@,
        0 <= p < raw.panes@.len(),
        raw.panes@[p].tab_id@ == raw.tabs@[t].tab_id@,
        forall|j: int| 0 <= j < p ==> (#[trigger] raw.panes@[j]).tab_id@ != raw.tabs@[t].tab_id@,
    ensures
        spec_workspace_root(raw, rw) == opt_cp(raw.panes@[p].cwd),
{
    let tp = |x: RawTab| x.workspace_id@ == rw.workspace_id@;
    lemma_filter_first(raw.tabs@, tp, t);
    assert(tabs_in(raw.tabs@, rw.workspace_id@) == raw.tabs@.filter(tp));
    let pp = |x: RawPane| x.tab_id@ == raw.tabs@[t].tab_id@;
    lemma_filter_first(raw.panes@, pp, p);
    assert(panes_in(raw.panes@, raw.tabs@[t].tab_id@) == raw.panes@.filter(pp));
}

pub open spec fn opt_tab_id(o: Option<TabId>) -> Option<Seq<char>> {
    match o {
        Some(t) => Some(t@),
        None => None,
    }
}

pub open spec fn workspace_maps(raw: RawSnapshot, rw: RawWorkspace, w: Workspace) -> bool {
    let tabs = tabs_in(raw.tabs@, rw.workspace_id@);
    &&& w.id@ == rw.workspace_id@
    &&& w.label@ == rw.label@
    &&& w.number == rw.number
    &&& opt_tab_id(w.focused_tab_id) == Some(rw.active_tab_id@)
    &&& opt_cp(w.root) == spec_workspace_root(raw, rw)
    &&& w.tabs@.len() == tabs.len()
    &&& forall|k: int| 0 <= k < tabs.len() ==> tab_maps(raw, tabs[k], #[trigger] w.tabs@[k])
}

fn first_pane_cwd(raw: &RawSnapshot, tab: &str) -> (r: Option<CanonicalPath>)
    ensures
        ({
            let panes = panes_in(raw.panes@, tab@);
            opt_cp(r) == if panes.len() == 0 { None } else { opt_cp(panes[0].cwd) }
        }),
{
    let ghost pred = |p: RawPane| p.tab_id@ == tab@;
    let mut i: usize = 0;
    while i < raw.panes.len()
        invariant
            i <= raw.panes@.len(),
            pred == |p: RawPane| p.tab_id@ == tab@,
            forall|j: int| 0 <= j < i ==> !pred(#[trigger] raw.panes@[j]),
        decreases raw.panes@.len() - i,
    {
        if str_equal(raw.panes[i].tab_id.as_str(), tab) {
            proof { lemma_filter_first(raw.panes@, pred, i as int); }
            return duplicate_path(&raw.panes[i].cwd);
        }
        i += 1;
    }
    proof { lemma_filter_none(raw.panes@, pred); }
    None
}

/// The root of a workspace: the worktree checkout when Herdr reports a
/// worktree, else the working directory of the first pane of its first tab.
pub fn workspace_root(workspace: &RawWorkspace, tabs: &Vec<Tab>, raw: &RawSnapshot) -> (r: Option<CanonicalPath>)
    requires
        tabs@.len() == tabs_in(raw.tabs@, workspace.workspace_id@).len(),
        forall|k: int| 0 <= k < tabs@.len() ==> tab_maps(*raw, tabs_in(raw.tabs@, workspace.workspace_id@)[k], #[trigger] tabs@[k]),
    ensures
        opt_cp(r) == spec_workspace_root(*raw, *workspace),
{
    match &workspace.worktree {
        Some(checkout) => duplicate_path(checkout),
        None => {
            if tabs.len() == 0 {
                None
            } else {
                first_pane_cwd(raw, tabs[0].id.as_str())
            }
        },
    }
}

pub fn map_workspace(workspace: &RawWorkspace, raw: &RawSnapshot) -> (w: Workspace)
    ensures
        workspace_maps(*raw, *workspace, w),
{
    let ghost pred = |t: RawTab| t.workspace_id@ == workspace.workspace_id@;
    let mut tabs: Vec<Tab> = Vec::new();
    let mut i: usize = 0;
    while i < raw.tabs.len()
        invariant
            i <= raw.tabs@.len(),
            pred == |t: RawTab| t.workspace_id@ == workspace.workspace_id@,
            tabs@.len() == raw.tabs@.take(i as int).filter(pred).len(),
            forall|k: int| 0 <= k < tabs@.len() ==> tab_maps(*raw, raw.tabs@.take(i as int).filter(pred)[k], #[trigger] tabs@[k]),
        decreases raw.tabs@.len() - i,
    {
        let ghost before = raw.tabs@.take(i as int);
        assert(raw.tabs@.take(i + 1) =~= before.push(raw.tabs@[i as int]));
        proof { before.lemma_filter_push(raw.tabs@[i as int], pred); }
        if str_equal(raw.tabs[i].workspace_id.as_str(), workspace.workspace_id.as_str()) {
            let t = map_tab(&raw.tabs[i], raw);
            tabs.push(t);
        }
        i += 1;
    }
    assert(raw.tabs@.take(raw.tabs@.len() as int) =~= raw.tabs@);
    let root = workspace_root(workspace, &tabs, raw);
    Workspace {
        id: WorkspaceId::new(workspace.workspace_id.as_str()),
        root,
        focused_tab_id: Some(TabId::new(workspace.active_tab_id.as_str())),
        tabs,
        label: workspace.label.clone(),
        number: workspace.number,
    }
}

pub open spec fn opt_workspace_id(o: Option<WorkspaceId>) -> Option<Seq<char>> {
    match o {
        Some(w) => Some(w@),
        None => None,
    }
}

/// The session a valid snapshot describes: every workspace in order with
/// its tabs and panes, the focused workspace when one is named.
pub open spec fn session_maps(raw: RawSnapshot, s: Session) -> bool {
    &&& opt_workspace_id(s.focused_workspace_id) == match raw.focused_workspace_id {
        Some(id) => if id@.len() > 0 { Some(id@) } else { None },
        None => None,
    }
    &&& s.workspaces@.len() == raw.workspaces@.len()
    &&& forall|i: int| 0 <= i < raw.workspaces@.len() ==> workspace_maps(raw, raw.workspaces@[i], #[trigger] s.workspaces@[i])
}

/// Map a snapshot onto session types, rejecting structural errors.
pub fn map_session(raw: &RawSnapshot) -> (r: Result<Session, Error>)
    ensures
        match r {
            Ok(s) => snapshot_structure_error(*raw) is None && session_maps(*raw, s),
            Err(e) => snapshot_structure_error(*raw) == Some(e@),
        },
{
    validate_snapshot(raw)?;
    let mut workspaces: Vec<Workspace> = Vec::new();
    let mut i: usize = 0;
    while i < raw.workspaces.len()
        invariant
            i <= raw.workspaces@.len(),
            workspaces@.len() == i,
            forall|k: int| 0 <= k < i ==> workspace_maps(*raw, raw.workspaces@[k], #[trigger] workspaces@[k]),
        decreases raw.workspaces@.len() - i,
    {
        let w = map_workspace(&raw.workspaces[i], raw);
        workspaces.push(w);
        i += 1;
    }
    let focused_workspace_id = match &raw.focused_workspace_id {
        Some(id) => if chars_of(id.as_str()).len() > 0 { Some(WorkspaceId::new(id.as_str())) } else { None },
        None => None,
    };
    Ok(Session { focused_workspace_id, workspaces })
}

pub open spec fn live_error() -> ErrorView {
    snapshot_error("live caller lookup is missing required identity fields"@)
}

/// The live caller's identity, which must be complete.
pub fn live_caller(pane: &RawPane) -> (r: Result<LiveCaller, Error>)
    ensures
        r is Ok <==> (pane.pane_id@.len() > 0 && pane.tab_id@.len() > 0 && pane.workspace_id@.len() > 0),
        r matches Err(e) ==> e@ == live_error(),
        r matches Ok(l) ==> l.workspace_id@ == pane.workspace_id@ && l.tab_id@ == pane.tab_id@ && l.pane_id@ == pane.pane_id@,
{
    if chars_of(pane.pane_id.as_str()).len() == 0 || chars_of(pane.tab_id.as_str()).len() == 0 || chars_of(pane.workspace_id.as_str()).len() == 0 {
        return Err(Error::herdr_protocol(String::from_str("live caller lookup is missing required identity fields")));
    }
    Ok(LiveCaller {
        workspace_id: WorkspaceId::new(pane.workspace_id.as_str()),
        tab_id: TabId::new(pane.tab_id.as_str()),
        pane_id: PaneId::new(pane.pane_id.as_str()),
    })
}

/// The session has the caller's pane inside the caller's tab inside the
/// caller's workspace.
pub open spec fn spec_session_contains(s: Session, workspace: Seq<char>, tab: Seq<char>, pane: Seq<char>) -> bool {
    exists|w: int, t: int, p: int| #[trigger] valid_pos(s, w, t, p)
        && s.workspaces@[w].id@ == workspace && s.workspaces@[w].tabs@[t].id@ == tab && pane_at(s, w, t, p).id@ == pane
}

pub fn session_contains(session: &Session, live: &LiveCaller) -> (r: bool)
    ensures
        r == spec_session_contains(*session, live.workspace_id@, live.tab_id@, live.pane_id@),
{
    let ghost s = *session;
    let mut wi: usize = 0;
    while wi < session.workspaces.len()
        invariant
            s == *session,
            wi <= s.workspaces@.len(),
            forall|w: int, t: int, p: int| #[trigger] valid_pos(s, w, t, p) && w < wi ==>
                !(s.workspaces@[w].id@ == live.workspace_id@ && s.workspaces@[w].tabs@[t].id@ == live.tab_id@ && pane_at(s, w, t, p).id@ == live.pane_id@),
        decreases s.workspaces@.len() - wi,
    {
        if session.workspaces[wi].id.same(&live.workspace_id) {
            let mut ti: usize = 0;
            while ti < session.workspaces[wi].tabs.len()
                invariant
                    s == *session,
                    wi < s.workspaces@.len(),
                    s.workspaces@[wi as int].id@ == live.workspace_id@,
                    ti <= s.workspaces@[wi as int].tabs@.len(),
                    forall|w: int, t: int, p: int| #[trigger] valid_pos(s, w, t, p) && (w < wi || (w == wi && t < ti)) ==>
                        !(s.workspaces@[w].id@ == live.workspace_id@ && s.workspaces@[w].tabs@[t].id@ == live.tab_id@ && pane_at(s, w, t, p).id@ == live.pane_id@),
                decreases s.workspaces@[wi as int].tabs@.len() - ti,
            {
                if session.workspaces[wi].tabs[ti].id.same(&live.tab_id) {
                    let mut pi: usize = 0;
                    while pi < session.workspaces[wi].tabs[ti].panes.len()
                        invariant
                            s == *session,
                            wi < s.workspaces@.len(),
                            ti < s.workspaces@[wi as int].tabs@.len(),
                            s.workspaces@[wi as int].id@ == live.workspace_id@,
                            s.workspaces@[wi as int].tabs@[ti as int].id@ == live.tab_id@,
                            pi <= s.workspaces@[wi as int].tabs@[ti as int].panes@.len(),
                            forall|w: int, t: int, p: int| #[trigger] valid_pos(s, w, t, p) && (w < wi || (w == wi && (t < ti || (t == ti && p < pi)))) ==>
                                !(s.workspaces@[w].id@ == live.workspace_id@ && s.workspaces@[w].tabs@[t].id@ == live.tab_id@ && pane_at(s, w, t, p).id@ == live.pane_id@),
                        decreases s.workspaces@[wi as int].tabs@[ti as int].panes@.len() - pi,
                    {
                        if session.workspaces[wi].tabs[ti].panes[pi].id.same(&live.pane_id) {
                            assert(valid_pos(s, wi as int, ti as int, pi as int));
                            return true;
                        }
                        pi += 1;
                    }
                }
                ti += 1;
            }
        }
        wi += 1;
    }
    false
}


/// First half of a session inspection, from the snapshot command's
/// result: not-found means the caller's identity is stale (`None`); a
/// snapshot must meet the version baseline and map cleanly.
pub fn inspect_snapshot(snapshot: CommandResult<RawSnapshot>) -> (r: Result<Option<Session>, Error>)
    ensures
        snapshot is NotFound ==> r matches Ok(None),
        snapshot matches CommandResult::Completed(raw) ==> match r {
            Ok(Some(s)) => spec_require_supported(raw.version@, raw.protocol) is Ok && snapshot_structure_error(raw) is None && session_maps(raw, s),
            Ok(None) => false,
            Err(e) => (spec_require_supported(raw.version@, raw.protocol) matches Err(x) && x == e@)
                || (spec_require_supported(raw.version@, raw.protocol) is Ok && snapshot_structure_error(raw) == Some(e@)),
        },
{
    match snapshot {
        CommandResult::NotFound { .. } => Ok(None),
        CommandResult::Completed(raw) => {
            require_supported_version(raw.version.as_str(), raw.protocol)?;
            let session = map_session(&raw)?;
            Ok(Some(session))
        },
    }
}

/// Second half of a session inspection, from the live-caller command's
/// result: not-found, or a caller the snapshot does not hold, is stale; the
/// caller's identity must be complete.
pub fn inspect_live_caller(session: Session, current: CommandResult<RawPane>) -> (r: Result<SessionInspection, Error>)
    ensures
        current is NotFound ==> r matches Ok(SessionInspection::Stale),
        current matches CommandResult::Completed(pane) ==> {
            let complete = pane.pane_id@.len() > 0 && pane.tab_id@.len() > 0 && pane.workspace_id@.len() > 0;
            &&& !complete ==> (r matches Err(e) && e@ == live_error())
            &&& complete && !spec_session_contains(session, pane.workspace_id@, pane.tab_id@, pane.pane_id@) ==> (r matches Ok(SessionInspection::Stale))
            &&& complete && spec_session_contains(session, pane.workspace_id@, pane.tab_id@, pane.pane_id@) ==> (r matches Ok(SessionInspection::Ready { live, session: s })
                && s == session && live.workspace_id@ == pane.workspace_id@ && live.tab_id@ == pane.tab_id@ && live.pane_id@ == pane.pane_id@)
        },
{
    let pane = match current {
        CommandResult::NotFound { .. } => return Ok(SessionInspection::Stale),
        CommandResult::Completed(pane) => pane,
    };
    let live = live_caller(&pane)?;
    if !session_contains(&session, &live) {
        return Ok(SessionInspection::Stale);
    }
    Ok(SessionInspection::Ready { live, session })
}

pub open spec fn mismatched_process_error() -> ErrorView {
    snapshot_error("pane process inspection returned a mismatched pane id"@)
}

/// A process inspection's outcome: evidence for exactly the requested pane,
/// or not-found.
pub fn inspect_process(pane_id: &PaneId, info: CommandResult<RawProcessInfo>) -> (r: Result<ProcessInspection, Error>)
    ensures
        info is NotFound ==> r matches Ok(ProcessInspection::NotFound),
        info matches CommandResult::Completed(i) ==> if i.pane_id@ != pane_id@ {
            r matches Err(e) && e@ == mismatched_process_error()
        } else {
            r matches Ok(ProcessInspection::Evidence(e)) && e.shell_pid == i.shell_pid
                && e.foreground_process_group_id == i.foreground_process_group_id
                && e.foreground_processes@.len() == i.foreground_pids@.len()
                && forall|k: int| 0 <= k < i.foreground_pids@.len() ==> (#[trigger] e.foreground_processes@[k]).pid == i.foreground_pids@[k]
        },
{
    match info {
        CommandResult::NotFound { .. } => Ok(ProcessInspection::NotFound),
        CommandResult::Completed(info) => {
            if !str_equal(info.pane_id.as_str(), pane_id.as_str()) {
                return Err(Error::herdr_protocol(String::from_str("pane process inspection returned a mismatched pane id")));
            }
            Ok(ProcessInspection::Evidence(map_process_evidence(&info)))
        },
    }
}

} // verus!
