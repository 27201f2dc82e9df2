//! Deterministic inside-Herdr navigation decision tree.

use vstd::prelude::*;

use crate::path::{CanonicalPath, is_prefix};
use crate::types::{Action, ActionView, AgentIdlePolicy, Caller, Pane, PaneId, Session, Tab, TabId, Workspace, WorkspaceId, pane_eligible};

verus! {

/// Lexicographic strict order on rank tuples.
pub open spec fn lex_lt(a: (int, int, int, int), b: (int, int, int, int)) -> bool {
    a.0 < b.0 || (a.0 == b.0 && (a.1 < b.1 || (a.1 == b.1 && (a.2 < b.2 || (a.2 == b.2 && a.3 < b.3)))))
}

pub open spec fn opt_tab_is(o: Option<TabId>, id: Seq<char>) -> bool {
    o matches Some(t) && t@ == id
}

pub open spec fn opt_pane_is(o: Option<PaneId>, id: Seq<char>) -> bool {
    o matches Some(p) && p@ == id
}

pub open spec fn opt_workspace_is(o: Option<WorkspaceId>, id: Seq<char>) -> bool {
    o matches Some(w) && w@ == id
}

/// Tab priority: the caller's tab, then the workspace's focused tab, then the rest.
pub open spec fn tab_tier(ws: Workspace, tab: Tab, caller_tab: Option<Seq<char>>) -> int {
    if (caller_tab matches Some(c) && tab.id@ == c) {
        0
    } else if opt_tab_is(ws.focused_tab_id, tab.id@) {
        1
    } else {
        2
    }
}

/// Pane priority inside a tab: the focused pane first.
pub open spec fn pane_tier(tab: Tab, pane: Pane) -> int {
    if opt_pane_is(tab.focused_pane_id, pane.id@) { 0 } else { 1 }
}

/// Rank of pane `pi` of tab `ti`: focus tiers, then authoritative list order.
/// Occupant type never takes part.
pub open spec fn pane_rank(ws: Workspace, caller_tab: Option<Seq<char>>, ti: int, pi: int) -> (int, int, int, int) {
    let tab = ws.tabs@[ti];
    (tab_tier(ws, tab, caller_tab), pane_tier(tab, tab.panes@[pi]), ti, pi)
}

/// Pane `pi` of tab `ti` exists and is eligible at `target`.
pub open spec fn eligible_at(ws: Workspace, target: Seq<Seq<char>>, policy: AgentIdlePolicy, ti: int, pi: int) -> bool {
    0 <= ti < ws.tabs@.len() && 0 <= pi < ws.tabs@[ti].panes@.len()
        && pane_eligible(ws.tabs@[ti].panes@[pi], target, policy)
}

/// The eligible pane at `(ti, pi)` outranks every other eligible pane.
pub open spec fn best_pane(ws: Workspace, target: Seq<Seq<char>>, caller_tab: Option<Seq<char>>, policy: AgentIdlePolicy, ti: int, pi: int) -> bool {
    eligible_at(ws, target, policy, ti, pi)
        && forall|tj: int, pj: int| #![trigger eligible_at(ws, target, policy, tj, pj)]
            eligible_at(ws, target, policy, tj, pj) && (tj != ti || pj != pi)
                ==> lex_lt(pane_rank(ws, caller_tab, ti, pi), pane_rank(ws, caller_tab, tj, pj))
}

/// The best eligible pane of a workspace, if any pane is eligible.
pub open spec fn spec_select(ws: Workspace, target: Seq<Seq<char>>, caller_tab: Option<Seq<char>>, policy: AgentIdlePolicy) -> Option<(int, int)> {
    if exists|ti: int, pi: int| best_pane(ws, target, caller_tab, policy, ti, pi) {
        Some(choose|ti: int, pi: int| best_pane(ws, target, caller_tab, policy, ti, pi))
    } else {
        None
    }
}

pub proof fn lemma_best_pane_unique(ws: Workspace, target: Seq<Seq<char>>, caller_tab: Option<Seq<char>>, policy: AgentIdlePolicy, a: (int, int), b: (int, int))
    requires
        best_pane(ws, target, caller_tab, policy, a.0, a.1),
        best_pane(ws, target, caller_tab, policy, b.0, b.1),
    ensures
        a == b,
{
    if a != b {
        assert(eligible_at(ws, target, policy, b.0, b.1));
        assert(eligible_at(ws, target, policy, a.0, a.1));
    }
}

/// The workspace at `i` has a canonical root that contains `target`.
pub open spec fn ws_contains(session: Session, i: int, target: Seq<Seq<char>>) -> bool {
    &&& 0 <= i < session.workspaces@.len()
    &&& session.workspaces@[i].root is Some
    &&& is_prefix(session.workspaces@[i].root->0@, target)
}

/// Workspace preference key: deeper root, then the caller's workspace, then
/// the focused workspace, then earlier list position.
pub open spec fn ws_key(session: Session, caller_ws: Seq<char>, i: int) -> (int, int, int, int) {
    let ws = session.workspaces@[i];
    (
        -(ws.root->0@.len() as int),
        if ws.id@ == caller_ws { 0int } else { 1int },
        if opt_workspace_is(session.focused_workspace_id, ws.id@) { 0int } else { 1int },
        i,
    )
}

/// The containing workspace at `i` is preferred to every other containing one.
pub open spec fn best_workspace(session: Session, caller_ws: Seq<char>, target: Seq<Seq<char>>, i: int) -> bool {
    ws_contains(session, i, target)
        && forall|j: int| #![trigger ws_contains(session, j, target)]
            ws_contains(session, j, target) && j != i
                ==> lex_lt(ws_key(session, caller_ws, i), ws_key(session, caller_ws, j))
}

/// The nearest workspace whose root contains `target`, if any does.
pub open spec fn spec_nearest(session: Session, caller_ws: Seq<char>, target: Seq<Seq<char>>) -> Option<int> {
    if exists|i: int| best_workspace(session, caller_ws, target, i) {
        Some(choose|i: int| best_workspace(session, caller_ws, target, i))
    } else {
        None
    }
}

pub proof fn lemma_best_workspace_unique(session: Session, caller_ws: Seq<char>, target: Seq<Seq<char>>, a: int, b: int)
    requires
        best_workspace(session, caller_ws, target, a),
        best_workspace(session, caller_ws, target, b),
    ensures
        a == b,
{
    if a != b {
        assert(ws_contains(session, a, target));
        assert(ws_contains(session, b, target));
    }
}

/// `i` is the first workspace listed with identifier `id`.
pub open spec fn first_workspace(session: Session, id: Seq<char>, i: int) -> bool {
    0 <= i < session.workspaces@.len() && session.workspaces@[i].id@ == id
        && forall|j: int| 0 <= j < i ==> session.workspaces@[j].id@ != id
}

pub open spec fn spec_find(session: Session, id: Seq<char>) -> Option<int> {
    if exists|i: int| first_workspace(session, id, i) {
        Some(choose|i: int| first_workspace(session, id, i))
    } else {
        None
    }
}

pub proof fn lemma_first_workspace_unique(session: Session, id: Seq<char>, a: int, b: int)
    requires
        first_workspace(session, id, a),
        first_workspace(session, id, b),
    ensures
        a == b,
{
}

/// Identifier of pane `(ti, pi)` of workspace `wi`.
pub open spec fn pane_id_at(session: Session, wi: int, ti: int, pi: int) -> Seq<char> {
    session.workspaces@[wi].tabs@[ti].panes@[pi].id@
}

/// The decision tree, in its approved order: no-op, same-workspace pane,
/// strict cwd descent, nearest containing workspace pane, tab create, then
/// workspace create.
pub open spec fn spec_decide(caller: Caller, session: Session, target: Seq<Seq<char>>, policy: AgentIdlePolicy) -> ActionView {
    if caller.cwd@ == target {
        ActionView::NoOp
    } else {
        let own = match spec_find(session, caller.workspace_id@) {
            Some(wi) => match spec_select(session.workspaces@[wi], target, Some(caller.tab_id@), policy) {
                Some(tp) => Some(pane_id_at(session, wi, tp.0, tp.1)),
                None => None,
            },
            None => None,
        };
        match own {
            Some(pane_id) => ActionView::FocusPane { pane_id },
            None => if is_prefix(caller.cwd@, target) {
                ActionView::ChangeDirectory { path: target }
            } else {
                match spec_nearest(session, caller.workspace_id@, target) {
                    Some(wi) => match spec_select(session.workspaces@[wi], target, None, policy) {
                        Some(tp) => ActionView::FocusPane { pane_id: pane_id_at(session, wi, tp.0, tp.1) },
                        None => ActionView::CreateTab { workspace_id: session.workspaces@[wi].id@, cwd: target },
                    },
                    None => ActionView::CreateWorkspace { cwd: target },
                }
            }
        }
    }
}

fn lex_less(a: (u8, u8, usize, usize), b: (u8, u8, usize, usize)) -> (r: bool)
    ensures
        r == lex_lt((a.0 as int, a.1 as int, a.2 as int, a.3 as int), (b.0 as int, b.1 as int, b.2 as int, b.3 as int)),
{
    a.0 < b.0 || (a.0 == b.0 && (a.1 < b.1 || (a.1 == b.1 && (a.2 < b.2 || (a.2 == b.2 && a.3 < b.3)))))
}

/// Rank of pane `pane_index` of tab `tab_index` in `workspace`.
pub fn pane_rank_of(workspace: &Workspace, tab_index: usize, pane_index: usize, caller_tab_id: Option<&TabId>) -> (r: (u8, u8, usize, usize))
    requires
        tab_index < workspace.tabs@.len(),
        pane_index < workspace.tabs@[tab_index as int].panes@.len(),
    ensures
        (r.0 as int, r.1 as int, r.2 as int, r.3 as int) == pane_rank(*workspace, opt_tab_view(caller_tab_id), tab_index as int, pane_index as int),
{
    let tab = &workspace.tabs[tab_index];
    let pane = &tab.panes[pane_index];
    let is_caller_tab = match caller_tab_id {
        Some(id) => id.same(&tab.id),
        None => false,
    };
    let tab_tier: u8 = if is_caller_tab {
        0
    } else {
        let focused = match &workspace.focused_tab_id {
            Some(id) => id.same(&tab.id),
            None => false,
        };
        if focused { 1 } else { 2 }
    };
    let pane_focused = match &tab.focused_pane_id {
        Some(id) => id.same(&pane.id),
        None => false,
    };
    let pane_tier: u8 = if pane_focused { 0 } else { 1 };
    (tab_tier, pane_tier, tab_index, pane_index)
}

pub open spec fn opt_tab_view(o: Option<&TabId>) -> Option<Seq<char>> {
    match o {
        Some(t) => Some(t@),
        None => None,
    }
}

/// The best eligible pane at `target`: caller tab, focused tab, focused pane,
/// then list order.
pub fn select_eligible_pane(workspace: &Workspace, target: &CanonicalPath, caller_tab_id: Option<&TabId>, policy: &AgentIdlePolicy) -> (r: Option<(usize, usize)>)
    ensures
        r matches Some(tp) ==> best_pane(*workspace, target@, opt_tab_view(caller_tab_id), *policy, tp.0 as int, tp.1 as int),
        r is None ==> forall|ti: int, pi: int| !eligible_at(*workspace, target@, *policy, ti, pi),
{
    let ghost ws = *workspace;
    let ghost ct = opt_tab_view(caller_tab_id);
    let mut best: Option<(usize, usize)> = None;
    let mut best_rank: (u8, u8, usize, usize) = (0, 0, 0, 0);
    let mut ti: usize = 0;
    while ti < workspace.tabs.len()
        invariant
            ws == *workspace,
            ct == opt_tab_view(caller_tab_id),
            ti <= workspace.tabs@.len(),
            best matches Some(b) ==> {
                &&& eligible_at(ws, target@, *policy, b.0 as int, b.1 as int)
                &&& (b.0 < ti)
                &&& (best_rank.0 as int, best_rank.1 as int, best_rank.2 as int, best_rank.3 as int) == pane_rank(ws, ct, b.0 as int, b.1 as int)
                &&& forall|tj: int, pj: int| #![trigger eligible_at(ws, target@, *policy, tj, pj)]
                    eligible_at(ws, target@, *policy, tj, pj) && tj < ti && (tj != b.0 || pj != b.1)
                        ==> lex_lt(pane_rank(ws, ct, b.0 as int, b.1 as int), pane_rank(ws, ct, tj, pj))
            },
            best is None ==> forall|tj: int, pj: int| tj < ti ==> !#[trigger] eligible_at(ws, target@, *policy, tj, pj),
        decreases workspace.tabs@.len() - ti,
    {
        let mut pi: usize = 0;
        let pane_count = workspace.tabs[ti].panes.len();
        while pi < pane_count
            invariant
                ws == *workspace,
                ct == opt_tab_view(caller_tab_id),
                ti < workspace.tabs@.len(),
                pane_count == workspace.tabs@[ti as int].panes@.len(),
                pi <= pane_count,
                best matches Some(b) ==> {
                    &&& eligible_at(ws, target@, *policy, b.0 as int, b.1 as int)
                    &&& (b.0 < ti || (b.0 == ti && b.1 < pi))
                    &&& (best_rank.0 as int, best_rank.1 as int, best_rank.2 as int, best_rank.3 as int) == pane_rank(ws, ct, b.0 as int, b.1 as int)
                    &&& forall|tj: int, pj: int| #![trigger eligible_at(ws, target@, *policy, tj, pj)]
                        eligible_at(ws, target@, *policy, tj, pj) && (tj < ti || (tj == ti && pj < pi)) && (tj != b.0 || pj != b.1)
                            ==> lex_lt(pane_rank(ws, ct, b.0 as int, b.1 as int), pane_rank(ws, ct, tj, pj))
                },
                best is None ==> forall|tj: int, pj: int| (tj < ti || (tj == ti && pj < pi)) ==> !#[trigger] eligible_at(ws, target@, *policy, tj, pj),
            decreases pane_count - pi,
        {
            let pane = &workspace.tabs[ti].panes[pi];
            if pane.is_eligible_under(target, policy) {
                let rank = pane_rank_of(workspace, ti, pi, caller_tab_id);
                let replace = match best {
                    None => true,
                    Some(_) => lex_less(rank, best_rank),
                };
                if replace {
                    best = Some((ti, pi));
                    best_rank = rank;
                }
            }
            pi += 1;
        }
        ti += 1;
    }
    best
}

/// First workspace listed with identifier `id`.
pub fn find_workspace(session: &Session, id: &WorkspaceId) -> (r: Option<usize>)
    ensures
        r matches Some(i) ==> first_workspace(*session, id@, i as int),
        r is None ==> forall|i: int| 0 <= i < session.workspaces@.len() ==> session.workspaces@[i].id@ != id@,
{
    let mut i: usize = 0;
    while i < session.workspaces.len()
        invariant
            i <= session.workspaces@.len(),
            forall|j: int| 0 <= j < i ==> session.workspaces@[j].id@ != id@,
        decreases session.workspaces@.len() - i,
    {
        if session.workspaces[i].id.same(id) {
            return Some(i);
        }
        i += 1;
    }
    None
}

fn ws_key_of(session: &Session, caller_workspace_id: &WorkspaceId, i: usize) -> (k: (usize, u8, u8, usize))
    requires
        i < session.workspaces@.len(),
        session.workspaces@[i as int].root is Some,
    ensures
        (-(k.0 as int), k.1 as int, k.2 as int, k.3 as int) == ws_key(*session, caller_workspace_id@, i as int),
{
    let ws = &session.workspaces[i];
    let depth = match &ws.root {
        Some(root) => root.depth(),
        None => 0,
    };
    let is_caller: u8 = if ws.id.same(caller_workspace_id) { 0 } else { 1 };
    let focused = match &session.focused_workspace_id {
        Some(id) => id.same(&ws.id),
        None => false,
    };
    let is_focused: u8 = if focused { 0 } else { 1 };
    (depth, is_caller, is_focused, i)
}

fn ws_key_less(a: (usize, u8, u8, usize), b: (usize, u8, u8, usize)) -> (r: bool)
    ensures
        r == lex_lt((-(a.0 as int), a.1 as int, a.2 as int, a.3 as int), (-(b.0 as int), b.1 as int, b.2 as int, b.3 as int)),
{
    a.0 > b.0 || (a.0 == b.0 && (a.1 < b.1 || (a.1 == b.1 && (a.2 < b.2 || (a.2 == b.2 && a.3 < b.3)))))
}

/// The deepest workspace whose root contains `target`; ties prefer the
/// caller's workspace, then the focused workspace, then list order.
pub fn nearest_containing_workspace(session: &Session, caller_workspace_id: &WorkspaceId, target: &CanonicalPath) -> (r: Option<usize>)
    ensures
        r matches Some(i) ==> best_workspace(*session, caller_workspace_id@, target@, i as int),
        r is None ==> forall|i: int| !ws_contains(*session, i, target@),
{
    let ghost s = *session;
    let ghost cw = caller_workspace_id@;
    let mut best: Option<usize> = None;
    let mut best_key: (usize, u8, u8, usize) = (0, 0, 0, 0);
    let mut i: usize = 0;
    while i < session.workspaces.len()
        invariant
            s == *session,
            cw == caller_workspace_id@,
            i <= session.workspaces@.len(),
            best matches Some(b) ==> {
                &&& ws_contains(s, b as int, target@)
                &&& b < i
                &&& (-(best_key.0 as int), best_key.1 as int, best_key.2 as int, best_key.3 as int) == ws_key(s, cw, b as int)
                &&& forall|j: int| #![trigger ws_contains(s, j, target@)]
                    ws_contains(s, j, target@) && j < i && j != b ==> lex_lt(ws_key(s, cw, b as int), ws_key(s, cw, j))
            },
            best is None ==> forall|j: int| j < i ==> !#[trigger] ws_contains(s, j, target@),
        decreases session.workspaces@.len() - i,
    {
        let contains = match &session.workspaces[i].root {
            Some(root) => root.contains(target),
            None => false,
        };
        if contains {
            let key = ws_key_of(session, caller_workspace_id, i);
            let replace = match best {
                None => true,
                Some(_) => ws_key_less(key, best_key),
            };
            if replace {
                best = Some(i);
                best_key = key;
            }
        }
        i += 1;
    }
    proof {
        assert forall|j: int| !ws_contains(s, j, target@) || j < i by {}
    }
    best
}

/// Choose the next navigation action from canonical paths and typed evidence.
///
/// Free of I/O, environment reads, clocks, process execution, and global
/// state. Recheck-before-create belongs to orchestration.
pub fn decide(caller: &Caller, session: &Session, target: &CanonicalPath, policy: &AgentIdlePolicy) -> (action: Action)
    ensures
        action@ == spec_decide(*caller, *session, target@, *policy),
{
    if caller.cwd.same_as(target) {
        return Action::NoOp;
    }
    let own = match find_workspace(session, &caller.workspace_id) {
        Some(wi) => {
            proof {
                let w = wi as int;
                assert(first_workspace(*session, caller.workspace_id@, w));
                lemma_first_workspace_unique(*session, caller.workspace_id@, w, spec_find(*session, caller.workspace_id@)->0);
            }
            let ws = &session.workspaces[wi];
            match select_eligible_pane(ws, target, Some(&caller.tab_id), policy) {
                Some((ti, pi)) => {
                    proof {
                        let ct = opt_tab_view(Some(&caller.tab_id));
                        let c = choose|a: int, b: int| best_pane(*ws, target@, ct, *policy, a, b);
                        lemma_best_pane_unique(*ws, target@, ct, *policy, (ti as int, pi as int), c);
                    }
                    Some(ws.tabs[ti].panes[pi].id.duplicate())
                },
                None => {
                    proof {
                        let ct = opt_tab_view(Some(&caller.tab_id));
                        if exists|a: int, b: int| best_pane(*ws, target@, ct, *policy, a, b) {
                            let c = choose|a: int, b: int| best_pane(*ws, target@, ct, *policy, a, b);
                            assert(eligible_at(*ws, target@, *policy, c.0, c.1));
                        }
                    }
                    None
                },
            }
        },
        None => {
            proof {
                if exists|i: int| first_workspace(*session, caller.workspace_id@, i) {
                    let c = choose|i: int| first_workspace(*session, caller.workspace_id@, i);
                    assert(session.workspaces@[c].id@ == caller.workspace_id@);
                }
            }
            None
        },
    };
    if let Some(pane_id) = own {
        return Action::FocusPane { pane_id };
    }
    if caller.cwd.is_strict_ancestor_of(target) {
        return Action::ChangeDirectory { path: target.duplicate() };
    }
    match nearest_containing_workspace(session, &caller.workspace_id, target) {
        Some(wi) => {
            proof {
                let c = choose|i: int| best_workspace(*session, caller.workspace_id@, target@, i);
                lemma_best_workspace_unique(*session, caller.workspace_id@, target@, wi as int, c);
            }
            let ws = &session.workspaces[wi];
            match select_eligible_pane(ws, target, None, policy) {
                Some((ti, pi)) => {
                    proof {
                        let c = choose|a: int, b: int| best_pane(*ws, target@, None::<Seq<char>>, *policy, a, b);
                        lemma_best_pane_unique(*ws, target@, None::<Seq<char>>, *policy, (ti as int, pi as int), c);
                    }
                    Action::FocusPane { pane_id: ws.tabs[ti].panes[pi].id.duplicate() }
                },
                None => {
                    proof {
                        if exists|a: int, b: int| best_pane(*ws, target@, None::<Seq<char>>, *policy, a, b) {
                            let c = choose|a: int, b: int| best_pane(*ws, target@, None::<Seq<char>>, *policy, a, b);
                            assert(eligible_at(*ws, target@, *policy, c.0, c.1));
                        }
                    }
                    Action::CreateTab { workspace_id: ws.id.duplicate(), cwd: target.duplicate() }
                },
            }
        },
        None => {
            proof {
                if exists|i: int| best_workspace(*session, caller.workspace_id@, target@, i) {
                    let c = choose|i: int| best_workspace(*session, caller.workspace_id@, target@, i);
                    assert(ws_contains(*session, c, target@));
                }
            }
            Action::CreateWorkspace { cwd: target.duplicate() }
        },
    }
}

/// Navigating to the caller's own directory is a no-op, and only then.
pub proof fn law_noop_exactly_at_cwd(caller: Caller, session: Session, target: Seq<Seq<char>>, policy: AgentIdlePolicy)
    ensures
        (spec_decide(caller, session, target, policy) is NoOp) <==> caller.cwd@ == target,
{
}

/// A directory change only ever moves strictly downward from the caller's
/// directory, to exactly the target.
pub proof fn law_change_directory_only_downward(caller: Caller, session: Session, target: Seq<Seq<char>>, policy: AgentIdlePolicy)
    ensures
        spec_decide(caller, session, target, policy) matches ActionView::ChangeDirectory { path }
            ==> path == target && is_prefix(caller.cwd@, target) && caller.cwd@ != target,
{
}

/// Strict downward navigation changes the caller pane's directory unless
/// the caller's own workspace has an eligible pane at the target, whatever
/// panes other workspaces hold there.
pub proof fn law_descent_changes_directory_before_other_workspaces(caller: Caller, session: Session, target: Seq<Seq<char>>, policy: AgentIdlePolicy)
    requires
        is_prefix(caller.cwd@, target),
        caller.cwd@ != target,
        forall|wi: int, ti: int, pi: int|
            0 <= wi < session.workspaces@.len() && session.workspaces@[wi].id@ == caller.workspace_id@
                ==> !#[trigger] eligible_at(session.workspaces@[wi], target, policy, ti, pi),
    ensures
        spec_decide(caller, session, target, policy) == (ActionView::ChangeDirectory { path: target }),
{
    match spec_find(session, caller.workspace_id@) {
        Some(wi) => {
            assert(first_workspace(session, caller.workspace_id@, wi));
            let ws = session.workspaces@[wi];
            if let Some(tp) = spec_select(ws, target, Some(caller.tab_id@), policy) {
                assert(best_pane(ws, target, Some(caller.tab_id@), policy, tp.0, tp.1));
                assert(!eligible_at(ws, target, policy, tp.0, tp.1));
            }
        },
        None => {},
    }
}

pub proof fn lemma_prefix_antisymmetric(a: Seq<Seq<char>>, b: Seq<Seq<char>>)
    requires
        is_prefix(a, b),
        is_prefix(b, a),
    ensures
        a == b,
{
    assert(a.len() == b.len());
    assert(b.subrange(0, a.len() as int) =~= b);
}

/// Navigating to an ancestor (such as `..`) never changes the caller pane's
/// directory.
pub proof fn law_parent_navigation_never_changes_directory(caller: Caller, session: Session, target: Seq<Seq<char>>, policy: AgentIdlePolicy)
    requires
        is_prefix(target, caller.cwd@),
    ensures
        !(spec_decide(caller, session, target, policy) is ChangeDirectory),
{
    if is_prefix(caller.cwd@, target) {
        lemma_prefix_antisymmetric(caller.cwd@, target);
    }
}

/// A focused pane is always an eligible pane at the target, in the caller's
/// workspace or in the nearest workspace that contains the target.
pub proof fn law_focus_targets_an_eligible_pane(caller: Caller, session: Session, target: Seq<Seq<char>>, policy: AgentIdlePolicy)
    ensures
        spec_decide(caller, session, target, policy) matches ActionView::FocusPane { pane_id }
            ==> exists|wi: int, ti: int, pi: int|
                0 <= wi < session.workspaces@.len()
                && eligible_at(session.workspaces@[wi], target, policy, ti, pi)
                && #[trigger] pane_id_at(session, wi, ti, pi) == pane_id
                && (session.workspaces@[wi].id@ == caller.workspace_id@ || ws_contains(session, wi, target)),
{
    if spec_decide(caller, session, target, policy) is FocusPane {
        match spec_find(session, caller.workspace_id@) {
            Some(wi) => {
                let ws = session.workspaces@[wi];
                match spec_select(ws, target, Some(caller.tab_id@), policy) {
                    Some(tp) => {
                        assert(best_pane(ws, target, Some(caller.tab_id@), policy, tp.0, tp.1));
                        assert(pane_id_at(session, wi, tp.0, tp.1) == pane_id_at(session, wi, tp.0, tp.1));
                        return;
                    },
                    None => {},
                }
            },
            None => {},
        }
        let wi = spec_nearest(session, caller.workspace_id@, target)->0;
        let ws = session.workspaces@[wi];
        let tp = spec_select(ws, target, None, policy)->0;
        assert(best_workspace(session, caller.workspace_id@, target, wi));
        assert(best_pane(ws, target, None, policy, tp.0, tp.1));
        assert(pane_id_at(session, wi, tp.0, tp.1) == pane_id_at(session, wi, tp.0, tp.1));
    }
}

/// A tab is created only at the target, in a workspace whose root contains
/// the target and that has no eligible pane there.
pub proof fn law_create_tab_in_a_containing_workspace(caller: Caller, session: Session, target: Seq<Seq<char>>, policy: AgentIdlePolicy)
    ensures
        spec_decide(caller, session, target, policy) matches ActionView::CreateTab { workspace_id, cwd }
            ==> cwd == target && exists|wi: int|
                ws_contains(session, wi, target)
                && #[trigger] session.workspaces@[wi].id@ == workspace_id
                && forall|ti: int, pi: int| !eligible_at(session.workspaces@[wi], target, policy, ti, pi),
{
    if spec_decide(caller, session, target, policy) is CreateTab {
        let wi = spec_nearest(session, caller.workspace_id@, target)->0;
        assert(best_workspace(session, caller.workspace_id@, target, wi));
        let ws = session.workspaces@[wi];
        assert forall|ti: int, pi: int| !eligible_at(ws, target, policy, ti, pi) by {
            if eligible_at(ws, target, policy, ti, pi) {
                lemma_exists_best_pane(ws, target, None, policy, ti, pi);
            }
        }
    }
}

/// A workspace is created only when no workspace root contains the target.
pub proof fn law_create_workspace_only_without_container(caller: Caller, session: Session, target: Seq<Seq<char>>, policy: AgentIdlePolicy)
    ensures
        spec_decide(caller, session, target, policy) matches ActionView::CreateWorkspace { cwd }
            ==> cwd == target && forall|i: int| !ws_contains(session, i, target),
{
    if spec_decide(caller, session, target, policy) is CreateWorkspace {
        assert forall|i: int| !ws_contains(session, i, target) by {
            if ws_contains(session, i, target) {
                lemma_exists_best_workspace(session, caller.workspace_id@, target, i);
            }
        }
    }
}

/// An eligible pane in the caller's workspace is used before any directory
/// change or creation.
pub proof fn law_same_workspace_pane_first(caller: Caller, session: Session, target: Seq<Seq<char>>, policy: AgentIdlePolicy, wi: int, ti: int, pi: int)
    requires
        caller.cwd@ != target,
        first_workspace(session, caller.workspace_id@, wi),
        eligible_at(session.workspaces@[wi], target, policy, ti, pi),
    ensures
        spec_decide(caller, session, target, policy) matches ActionView::FocusPane { pane_id }
            && exists|tj: int, pj: int| #[trigger] pane_id_at(session, wi, tj, pj) == pane_id
                && eligible_at(session.workspaces@[wi], target, policy, tj, pj),
{
    lemma_first_workspace_unique(session, caller.workspace_id@, wi, spec_find(session, caller.workspace_id@)->0);
    let ws = session.workspaces@[wi];
    lemma_exists_best_pane(ws, target, Some(caller.tab_id@), policy, ti, pi);
    let tp = spec_select(ws, target, Some(caller.tab_id@), policy)->0;
    assert(best_pane(ws, target, Some(caller.tab_id@), policy, tp.0, tp.1));
    assert(pane_id_at(session, wi, tp.0, tp.1) == pane_id_at(session, wi, tp.0, tp.1));
}

/// Whenever some pane is eligible, a best one exists: from any eligible pane
/// that is not the best, a strictly better-ranked eligible pane exists, and
/// ranks cannot descend forever.
pub proof fn lemma_exists_best_pane(ws: Workspace, target: Seq<Seq<char>>, caller_tab: Option<Seq<char>>, policy: AgentIdlePolicy, ti: int, pi: int)
    requires
        eligible_at(ws, target, policy, ti, pi),
    ensures
        exists|a: int, b: int| best_pane(ws, target, caller_tab, policy, a, b),
    decreases pane_rank(ws, caller_tab, ti, pi).0, pane_rank(ws, caller_tab, ti, pi).1, ti, pi,
{
    if !best_pane(ws, target, caller_tab, policy, ti, pi) {
        let (tj, pj) = choose|tj: int, pj: int|
            eligible_at(ws, target, policy, tj, pj) && (tj != ti || pj != pi)
                && !lex_lt(pane_rank(ws, caller_tab, ti, pi), pane_rank(ws, caller_tab, tj, pj));
        assert(lex_lt(pane_rank(ws, caller_tab, tj, pj), pane_rank(ws, caller_tab, ti, pi)));
        lemma_exists_best_pane(ws, target, caller_tab, policy, tj, pj);
    }
}

/// Whenever some workspace root contains the target, a preferred one exists.
pub proof fn lemma_exists_best_workspace(session: Session, caller_ws: Seq<char>, target: Seq<Seq<char>>, i: int)
    requires
        ws_contains(session, i, target),
    ensures
        exists|a: int| best_workspace(session, caller_ws, target, a),
    decreases target.len() - session.workspaces@[i].root->0@.len(), ws_key(session, caller_ws, i).1, ws_key(session, caller_ws, i).2, i,
{
    if !best_workspace(session, caller_ws, target, i) {
        let j = choose|j: int|
            ws_contains(session, j, target) && j != i
                && !lex_lt(ws_key(session, caller_ws, i), ws_key(session, caller_ws, j));
        assert(lex_lt(ws_key(session, caller_ws, j), ws_key(session, caller_ws, i)));
        lemma_exists_best_workspace(session, caller_ws, target, j);
    }
}

} // verus!
