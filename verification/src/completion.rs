//! Completion evidence, physical prefix matching, and provenance-safe
//! candidate descriptions.

use vstd::prelude::*;

use crate::path::{CanonicalPath, is_prefix};
use crate::text::{chars_of, chars_start_with, strings_view};
use crate::types::{AgentStatus, Occupant, Session, TabId, Workspace, WorkspaceId};

verus! {

broadcast use {crate::text::lemma_strings_view, crate::text::lemma_strings_view_push};

/// The merged candidate set may not exceed this count after dedup.
pub const CANDIDATE_CEILING: usize = 1000;

/// Pane occupant as observed in the snapshot, without process inspection.
#[derive(Debug, Clone, Copy, PartialEq, Eq, Structural)]
pub enum OccupantKind {
    Shell,
    Agent(AgentStatus),
}

/// Strongest source, shown in the first description segment.
#[derive(Debug, Clone, Copy, PartialEq, Eq, Structural)]
pub enum SourceLabel {
    AgentIdle,
    AgentDone,
    AgentWorking,
    AgentBlocked,
    AgentUnknown,
    Workspace,
    ShellPane,
    Directory,
}

/// Closest truthful scope of the winning evidence record.
#[derive(Debug, Clone, PartialEq, Eq)]
pub enum ScopeLabel {
    Unscoped,
    CurrentTab,
    CurrentWorkspace,
    Workspace { label: String, number: usize },
    MultipleWorkspaces { count: usize },
}

pub enum ScopeView {
    Unscoped,
    CurrentTab,
    CurrentWorkspace,
    Workspace { label: Seq<char>, number: usize },
    MultipleWorkspaces { count: usize },
}

impl View for ScopeLabel {
    type V = ScopeView;

    open spec fn view(&self) -> ScopeView {
        match self {
            ScopeLabel::Unscoped => ScopeView::Unscoped,
            ScopeLabel::CurrentTab => ScopeView::CurrentTab,
            ScopeLabel::CurrentWorkspace => ScopeView::CurrentWorkspace,
            ScopeLabel::Workspace { label, number } => ScopeView::Workspace { label: label@, number: *number },
            ScopeLabel::MultipleWorkspaces { count } => ScopeView::MultipleWorkspaces { count: *count },
        }
    }
}

/// Description data of a candidate, before terminal escaping.
#[derive(Debug, Clone, PartialEq, Eq)]
pub struct DescriptionData {
    pub source: SourceLabel,
    pub scope: ScopeLabel,
    pub pane_count: usize,
}

pub struct DescriptionView {
    pub source: SourceLabel,
    pub scope: ScopeView,
    pub pane_count: nat,
}

impl View for DescriptionData {
    type V = DescriptionView;

    open spec fn view(&self) -> DescriptionView {
        DescriptionView { source: self.source, scope: self.scope@, pane_count: self.pane_count as nat }
    }
}

/// Supporting evidence for one canonical directory.
#[derive(Debug, Clone, PartialEq, Eq)]
pub enum Evidence {
    WorkspaceRoot { workspace_id: WorkspaceId, label: String, number: usize, is_current: bool },
    Pane {
        workspace_id: WorkspaceId,
        tab_id: TabId,
        occupant: OccupantKind,
        label: String,
        number: usize,
        is_current_workspace: bool,
        is_current_tab: bool,
    },
    Filesystem,
}

pub enum EvidenceView {
    WorkspaceRoot { workspace_id: Seq<char>, label: Seq<char>, number: usize, is_current: bool },
    Pane {
        workspace_id: Seq<char>,
        tab_id: Seq<char>,
        occupant: OccupantKind,
        label: Seq<char>,
        number: usize,
        is_current_workspace: bool,
        is_current_tab: bool,
    },
    Filesystem,
}

impl View for Evidence {
    type V = EvidenceView;

    open spec fn view(&self) -> EvidenceView {
        match self {
            Evidence::WorkspaceRoot { workspace_id, label, number, is_current } => EvidenceView::WorkspaceRoot {
                workspace_id: workspace_id@,
                label: label@,
                number: *number,
                is_current: *is_current,
            },
            Evidence::Pane { workspace_id, tab_id, occupant, label, number, is_current_workspace, is_current_tab } => EvidenceView::Pane {
                workspace_id: workspace_id@,
                tab_id: tab_id@,
                occupant: *occupant,
                label: label@,
                number: *number,
                is_current_workspace: *is_current_workspace,
                is_current_tab: *is_current_tab,
            },
            Evidence::Filesystem => EvidenceView::Filesystem,
        }
    }
}

impl Evidence {
    pub fn duplicate(&self) -> (r: Self)
        ensures
            r@ == self@,
    {
        match self {
            Evidence::WorkspaceRoot { workspace_id, label, number, is_current } => Evidence::WorkspaceRoot {
                workspace_id: workspace_id.duplicate(),
                label: label.clone(),
                number: *number,
                is_current: *is_current,
            },
            Evidence::Pane { workspace_id, tab_id, occupant, label, number, is_current_workspace, is_current_tab } => Evidence::Pane {
                workspace_id: workspace_id.duplicate(),
                tab_id: tab_id.duplicate(),
                occupant: *occupant,
                label: label.clone(),
                number: *number,
                is_current_workspace: *is_current_workspace,
                is_current_tab: *is_current_tab,
            },
            Evidence::Filesystem => Evidence::Filesystem,
        }
    }
}

/// One deduplicated completion candidate.
#[derive(Debug, Clone, PartialEq, Eq)]
pub struct CompletionCandidate {
    pub path: CanonicalPath,
    pub description: DescriptionData,
}

impl ScopeLabel {
    pub fn duplicate(&self) -> (r: Self)
        ensures
            r@ == self@,
    {
        match self {
            ScopeLabel::Unscoped => ScopeLabel::Unscoped,
            ScopeLabel::CurrentTab => ScopeLabel::CurrentTab,
            ScopeLabel::CurrentWorkspace => ScopeLabel::CurrentWorkspace,
            ScopeLabel::Workspace { label, number } => ScopeLabel::Workspace { label: label.clone(), number: *number },
            ScopeLabel::MultipleWorkspaces { count } => ScopeLabel::MultipleWorkspaces { count: *count },
        }
    }
}

impl CompletionCandidate {
    pub fn duplicate(&self) -> (r: Self)
        ensures
            r.path@ == self.path@,
            r.description@ == self.description@,
    {
        CompletionCandidate {
            path: self.path.duplicate(),
            description: DescriptionData {
                source: self.description.source,
                scope: self.description.scope.duplicate(),
                pane_count: self.description.pane_count,
            },
        }
    }
}

/// Hard physical prefix used for non-empty completion: the canonical
/// directory the typed parent resolves to, and the typed name fragment.
#[derive(Debug, Clone, PartialEq, Eq)]
pub struct PrefixBound {
    pub base: CanonicalPath,
    pub remaining: String,
}

/// A name that begins with `.` but is neither `.` nor `..`.
pub open spec fn hidden_name(name: Seq<char>) -> bool {
    name.len() > 0 && name[0] == '.' && name != seq!['.'] && name != seq!['.', '.']
}

/// Some component of the path is hidden.
pub open spec fn has_hidden_component(path: Seq<Seq<char>>) -> bool {
    exists|i: int| 0 <= i < path.len() && hidden_name(#[trigger] path[i])
}

pub open spec fn starts_with_chars(s: Seq<char>, prefix: Seq<char>) -> bool {
    prefix.len() <= s.len() && s.subrange(0, prefix.len() as int) == prefix
}

/// Whether `path` lies under the bound: below `base`, first component
/// starting with `remaining` (hidden only when `remaining` starts with `.`),
/// and no hidden component after the first. Filesystem children must be
/// direct children; the base itself matches only an empty `remaining`.
pub open spec fn spec_matches_bound(path: Seq<Seq<char>>, base: Seq<Seq<char>>, remaining: Seq<char>, filesystem: bool) -> bool {
    if !is_prefix(base, path) {
        false
    } else {
        let suffix = path.skip(base.len() as int);
        if filesystem && suffix.len() != 1 {
            false
        } else if suffix.len() == 0 {
            remaining.len() == 0
        } else {
            &&& !(hidden_name(suffix[0]) && !(remaining.len() > 0 && remaining[0] == '.'))
            &&& starts_with_chars(suffix[0], remaining)
            &&& forall|i: int| 1 <= i < suffix.len() ==> !hidden_name(#[trigger] suffix[i])
        }
    }
}

pub fn is_hidden_component(name: &str) -> (r: bool)
    ensures
        r == hidden_name(name@),
{
    let v = chars_of(name);
    if v.len() == 0 || v[0] != '.' {
        return false;
    }
    let dot = v.len() == 1;
    let dotdot = v.len() == 2 && v[1] == '.';
    proof {
        if v@ == seq!['.'] { assert(v@.len() == 1); }
        if v@ == seq!['.', '.'] { assert(v@[1] == '.'); }
        if dot { assert(v@ =~= seq!['.']); }
        if dotdot { assert(v@ =~= seq!['.', '.']); }
    }
    !dot && !dotdot
}

fn has_untyped_hidden_component(path: &CanonicalPath) -> (r: bool)
    ensures
        r == has_hidden_component(path@),
{
    let parts = path.components();
    let mut i: usize = 0;
    while i < parts.len()
        invariant
            i <= parts@.len(),
            strings_view(parts@) == path@,
            forall|j: int| 0 <= j < i ==> !hidden_name(#[trigger] path@[j]),
        decreases parts@.len() - i,
    {
        if is_hidden_component(parts[i].as_str()) {
            assert(hidden_name(path@[i as int]));
            return true;
        }
        i += 1;
    }
    false
}

fn matches_bound(path: &CanonicalPath, bound: &PrefixBound, filesystem: bool) -> (r: bool)
    ensures
        r == spec_matches_bound(path@, bound.base@, bound.remaining@, filesystem),
{
    let suffix = match path.relative_components(&bound.base) {
        Some(s) => s,
        None => return false,
    };
    let ghost sv = strings_view(suffix@);
    if filesystem {
        if suffix.len() != 1 {
            return false;
        }
    } else if suffix.len() == 0 {
        return chars_of(bound.remaining.as_str()).len() == 0;
    }
    if suffix.len() == 0 {
        return chars_of(bound.remaining.as_str()).len() == 0;
    }
    let remaining = chars_of(bound.remaining.as_str());
    let first = chars_of(suffix[0].as_str());
    assert(first@ == sv[0]);
    let explicit_dot = remaining.len() > 0 && remaining[0] == '.';
    if is_hidden_component(suffix[0].as_str()) && !explicit_dot {
        return false;
    }
    if !chars_start_with(&first, &remaining) {
        assert(!starts_with_chars(sv[0], bound.remaining@));
        return false;
    }
    let mut i: usize = 1;
    while i < suffix.len()
        invariant
            1 <= i <= suffix@.len(),
            sv == strings_view(suffix@),
            sv == path@.skip(bound.base@.len() as int),
            is_prefix(bound.base@, path@),
            !filesystem || sv.len() == 1,
            starts_with_chars(sv[0], bound.remaining@),
            !(hidden_name(sv[0]) && !(bound.remaining@.len() > 0 && bound.remaining@[0] == '.')),
            forall|j: int| 1 <= j < i ==> !hidden_name(#[trigger] sv[j]),
        decreases suffix@.len() - i,
    {
        if is_hidden_component(suffix[i].as_str()) {
            assert(hidden_name(sv[i as int]));
            return false;
        }
        i += 1;
    }
    true
}

/// Keep a Herdr semantic path that passes the caller-cwd, hidden, and
/// prefix rules.
pub open spec fn spec_semantic_allowed(path: Seq<Seq<char>>, caller_cwd: Seq<Seq<char>>, bound: Option<(Seq<Seq<char>>, Seq<char>)>) -> bool {
    path != caller_cwd && match bound {
        None => !has_hidden_component(path),
        Some(b) => spec_matches_bound(path, b.0, b.1, false),
    }
}

pub open spec fn bound_view(bound: Option<&PrefixBound>) -> Option<(Seq<Seq<char>>, Seq<char>)> {
    match bound {
        Some(b) => Some((b.base@, b.remaining@)),
        None => None,
    }
}

/// Keep a Herdr semantic path that passes the prefix, hidden, and
/// caller-cwd rules.
pub fn semantic_path_allowed(path: &CanonicalPath, caller_cwd: &CanonicalPath, bound: Option<&PrefixBound>) -> (r: bool)
    ensures
        r == spec_semantic_allowed(path@, caller_cwd@, bound_view(bound)),
{
    if path.same_as(caller_cwd) {
        return false;
    }
    match bound {
        None => !has_untyped_hidden_component(path),
        Some(b) => matches_bound(path, b, false),
    }
}

/// Keep a filesystem child that is a direct child of the prefix base.
pub fn filesystem_path_allowed(path: &CanonicalPath, caller_cwd: &CanonicalPath, bound: &PrefixBound) -> (r: bool)
    ensures
        r == (path@ != caller_cwd@ && spec_matches_bound(path@, bound.base@, bound.remaining@, true)),
{
    !path.same_as(caller_cwd) && matches_bound(path, bound, true)
}

/// A listed entry name passes the hidden and prefix rules of the bound: it
/// starts with the typed remainder, and names a hidden entry only when the
/// remainder starts with `.`.
pub open spec fn spec_name_matches(name: Seq<char>, remaining: Seq<char>) -> bool {
    &&& !(hidden_name(name) && !(remaining.len() > 0 && remaining[0] == '.'))
    &&& starts_with_chars(name, remaining)
}

/// Keep a directory entry listed under the prefix base, matched by the
/// entry's own name (for a symlink, not by the directory it resolves to),
/// unless it resolves to the caller's directory.
pub fn filesystem_entry_allowed(path: &CanonicalPath, name: &str, caller_cwd: &CanonicalPath, bound: &PrefixBound) -> (r: bool)
    ensures
        r == (path@ != caller_cwd@ && spec_name_matches(name@, bound.remaining@)),
{
    if path.same_as(caller_cwd) {
        return false;
    }
    let remaining = chars_of(bound.remaining.as_str());
    let first = chars_of(name);
    let explicit_dot = remaining.len() > 0 && remaining[0] == '.';
    if is_hidden_component(name) && !explicit_dot {
        return false;
    }
    chars_start_with(&first, &remaining)
}


/// Views of a sequence of evidence records.
pub open spec fn evidence_views(v: Seq<Evidence>) -> Seq<EvidenceView> {
    v.map_values(|e: Evidence| e@)
}

/// Strength of a record: idle or done agent, workspace root, other pane,
/// filesystem.
pub open spec fn spec_strength(e: EvidenceView) -> int {
    match e {
        EvidenceView::Pane { occupant, .. } => match occupant {
            OccupantKind::Agent(AgentStatus::Idle) => 0,
            OccupantKind::Agent(AgentStatus::Done) => 0,
            _ => 2,
        },
        EvidenceView::WorkspaceRoot { .. } => 1,
        EvidenceView::Filesystem => 3,
    }
}

/// Scope rank of a record: current tab, current workspace, elsewhere.
pub open spec fn spec_scope_rank(e: EvidenceView) -> int {
    match e {
        EvidenceView::Pane { is_current_tab, is_current_workspace, .. } => if is_current_tab {
            0
        } else if is_current_workspace {
            1
        } else {
            2
        },
        EvidenceView::WorkspaceRoot { is_current, .. } => if is_current { 1 } else { 2 },
        EvidenceView::Filesystem => 2,
    }
}

/// `a` has a strictly better (strength, scope) key than `b`.
pub open spec fn outranks(a: EvidenceView, b: EvidenceView) -> bool {
    spec_strength(a) < spec_strength(b) || (spec_strength(a) == spec_strength(b) && spec_scope_rank(a) < spec_scope_rank(b))
}

/// `w` is the first record with the least key.
pub open spec fn is_winner(s: Seq<EvidenceView>, w: int) -> bool {
    &&& 0 <= w < s.len()
    &&& forall|j: int| 0 <= j < s.len() ==> !outranks(#[trigger] s[j], s[w])
    &&& forall|j: int| 0 <= j < w ==> outranks(s[w], #[trigger] s[j])
}

pub proof fn lemma_winner_unique(s: Seq<EvidenceView>, a: int, b: int)
    requires
        is_winner(s, a),
        is_winner(s, b),
    ensures
        a == b,
{
    if a < b {
        assert(outranks(s[b], s[a]));
    } else if b < a {
        assert(outranks(s[a], s[b]));
    }
}

/// Number of pane records.
pub open spec fn count_panes(s: Seq<EvidenceView>) -> nat
    decreases s.len(),
{
    if s.len() == 0 {
        0
    } else {
        count_panes(s.drop_last()) + if s.last() is Pane { 1nat } else { 0nat }
    }
}

pub open spec fn spec_pane_source(occupant: OccupantKind) -> SourceLabel {
    match occupant {
        OccupantKind::Shell => SourceLabel::ShellPane,
        OccupantKind::Agent(AgentStatus::Idle) => SourceLabel::AgentIdle,
        OccupantKind::Agent(AgentStatus::Done) => SourceLabel::AgentDone,
        OccupantKind::Agent(AgentStatus::Working) => SourceLabel::AgentWorking,
        OccupantKind::Agent(AgentStatus::Blocked) => SourceLabel::AgentBlocked,
        OccupantKind::Agent(AgentStatus::Unknown) => SourceLabel::AgentUnknown,
    }
}

pub open spec fn spec_pane_scope(is_current_tab: bool, is_current_workspace: bool, label: Seq<char>, number: usize) -> ScopeView {
    if is_current_tab {
        ScopeView::CurrentTab
    } else if is_current_workspace {
        ScopeView::CurrentWorkspace
    } else {
        ScopeView::Workspace { label, number }
    }
}

/// Workspace identity carried by a record: id, label, number, current flag.
pub open spec fn ws_entry(e: EvidenceView) -> Option<(Seq<char>, Seq<char>, usize, bool)> {
    match e {
        EvidenceView::WorkspaceRoot { workspace_id, label, number, is_current } => Some((workspace_id, label, number, is_current)),
        EvidenceView::Pane { workspace_id, label, number, is_current_workspace, .. } => Some((workspace_id, label, number, is_current_workspace)),
        EvidenceView::Filesystem => None,
    }
}

/// `k` is the first entry whose id is `id`.
pub open spec fn first_entry_at(u: Seq<(Seq<char>, Seq<char>, usize, bool)>, id: Seq<char>, k: int) -> bool {
    0 <= k < u.len() && u[k].0 == id && forall|j: int| 0 <= j < k ==> u[j].0 != id
}

pub open spec fn first_entry(u: Seq<(Seq<char>, Seq<char>, usize, bool)>, id: Seq<char>) -> int {
    if exists|k: int| first_entry_at(u, id, k) {
        choose|k: int| first_entry_at(u, id, k)
    } else {
        -1
    }
}

/// Distinct workspaces among the records, in first-seen order; a workspace
/// is current when any of its records says so.
pub open spec fn unique_workspaces(s: Seq<EvidenceView>) -> Seq<(Seq<char>, Seq<char>, usize, bool)>
    decreases s.len(),
{
    if s.len() == 0 {
        seq![]
    } else {
        let u = unique_workspaces(s.drop_last());
        match ws_entry(s.last()) {
            None => u,
            Some(e) => {
                let k = first_entry(u, e.0);
                if k >= 0 {
                    u.update(k, (u[k].0, u[k].1, u[k].2, u[k].3 || e.3))
                } else {
                    u.push(e)
                }
            },
        }
    }
}

pub open spec fn spec_workspace_scope(s: Seq<EvidenceView>) -> ScopeView {
    let u = unique_workspaces(s);
    if exists|k: int| 0 <= k < u.len() && #[trigger] u[k].3 {
        ScopeView::CurrentWorkspace
    } else if u.len() == 1 {
        ScopeView::Workspace { label: u[0].1, number: u[0].2 }
    } else if u.len() > 1 {
        ScopeView::MultipleWorkspaces { count: u.len() as usize }
    } else {
        ScopeView::Unscoped
    }
}

/// The workspace id, label and number a record names, and whether it is
/// current; a filesystem record names none.
pub open spec fn record_workspace(e: EvidenceView) -> Option<(Seq<char>, Seq<char>, usize, bool)> {
    match e {
        EvidenceView::WorkspaceRoot { workspace_id, label, number, is_current } => Some((workspace_id, label, number, is_current)),
        EvidenceView::Pane { workspace_id, label, number, is_current_workspace, .. } => Some((workspace_id, label, number, is_current_workspace)),
        EvidenceView::Filesystem => None,
    }
}

/// The record names workspace `id`, not as current.
pub open spec fn names_other_workspace(e: EvidenceView, id: Seq<char>) -> bool {
    match record_workspace(e) {
        Some(w) => w.0 == id && !w.3,
        None => false,
    }
}

/// Every record names workspace `id`, and none of them as current.
pub open spec fn all_in_other_workspace(s: Seq<EvidenceView>, id: Seq<char>) -> bool {
    forall|i: int| 0 <= i < s.len() ==> names_other_workspace(#[trigger] s[i], id)
}

proof fn lemma_one_workspace(s: Seq<EvidenceView>, id: Seq<char>)
    requires
        s.len() > 0,
        all_in_other_workspace(s, id),
    ensures
        unique_workspaces(s) == seq![(id, (record_workspace(s[0])->0).1, (record_workspace(s[0])->0).2, false)],
    decreases s.len(),
{
    let d = s.drop_last();
    assert(names_other_workspace(s[s.len() - 1], id));
    if d.len() > 0 {
        assert forall|i: int| 0 <= i < d.len() implies names_other_workspace(#[trigger] d[i], id) by {
            assert(d[i] == s[i]);
            assert(names_other_workspace(s[i], id));
        }
        lemma_one_workspace(d, id);
        assert(d[0] == s[0]);
        let u = unique_workspaces(d);
        assert(first_entry_at(u, id, 0));
        assert(first_entry(u, id) == 0);
    } else {
        let u = unique_workspaces(d);
        assert(u.len() == 0);
        assert(!exists|k: int| first_entry_at(u, id, k));
        assert(s.last() == s[0]);
    }
}

proof fn lemma_unique_workspaces_len(s: Seq<EvidenceView>)
    ensures
        unique_workspaces(s).len() <= s.len(),
    decreases s.len(),
{
    if s.len() > 0 {
        lemma_unique_workspaces_len(s.drop_last());
    }
}

proof fn lemma_current_kept(s: Seq<EvidenceView>, i: int)
    requires
        0 <= i < s.len(),
        record_workspace(s[i]) is Some,
        (record_workspace(s[i])->0).3,
    ensures
        exists|k: int| 0 <= k < unique_workspaces(s).len() && #[trigger] unique_workspaces(s)[k].3,
    decreases s.len(),
{
    let d = s.drop_last();
    let u = unique_workspaces(d);
    assert(ws_entry(s.last()) == record_workspace(s.last()));
    if i == s.len() - 1 {
        let e = record_workspace(s.last())->0;
        let k = first_entry(u, e.0);
        if k >= 0 {
            assert(exists|j: int| first_entry_at(u, e.0, j));
            assert(first_entry_at(u, e.0, k));
            assert(unique_workspaces(s)[k].3);
        } else {
            assert(unique_workspaces(s)[u.len() as int].3);
        }
    } else {
        assert(d[i] == s[i]);
        lemma_current_kept(d, i);
        let k0 = choose|k: int| 0 <= k < u.len() && #[trigger] u[k].3;
        match ws_entry(s.last()) {
            None => {
                assert(unique_workspaces(s)[k0].3);
            },
            Some(e) => {
                let k = first_entry(u, e.0);
                if k >= 0 {
                    assert(exists|j: int| first_entry_at(u, e.0, j));
                    assert(first_entry_at(u, e.0, k));
                    assert(unique_workspaces(s)[k0].3);
                } else {
                    assert(unique_workspaces(s)[k0].3);
                }
            },
        }
    }
}

/// A path that some record ties to the caller's current workspace is
/// described as in the current workspace.
pub proof fn law_current_workspace_scope_wins(s: Seq<EvidenceView>, i: int)
    requires
        0 <= i < s.len(),
        record_workspace(s[i]) is Some,
        (record_workspace(s[i])->0).3,
    ensures
        spec_workspace_scope(s) == ScopeView::CurrentWorkspace,
{
    lemma_current_kept(s, i);
}

/// A workspace description names the one workspace its records come from:
/// when every record of a path names the same workspace, none as current,
/// the scope is that workspace with its label and number; a count of
/// several workspaces is only ever given for two or more.
pub proof fn law_single_workspace_scope_names_it(s: Seq<EvidenceView>, id: Seq<char>)
    requires
        s.len() <= usize::MAX,
    ensures
        s.len() > 0 && all_in_other_workspace(s, id) ==> spec_workspace_scope(s) == (ScopeView::Workspace {
            label: (record_workspace(s[0])->0).1,
            number: (record_workspace(s[0])->0).2,
        }),
        spec_workspace_scope(s) matches ScopeView::MultipleWorkspaces { count } ==> count >= 2,
{
    lemma_unique_workspaces_len(s);
    if s.len() > 0 && all_in_other_workspace(s, id) {
        lemma_one_workspace(s, id);
        let u = unique_workspaces(s);
        assert(!(exists|k: int| 0 <= k < u.len() && #[trigger] u[k].3));
    }
}

/// Description of the evidence for one path: the winner's source and scope,
/// and the exact number of pane records.
pub open spec fn spec_describe(s: Seq<EvidenceView>) -> DescriptionView {
    if s.len() == 0 {
        DescriptionView { source: SourceLabel::Directory, scope: ScopeView::Unscoped, pane_count: 0 }
    } else {
        let w = choose|w: int| is_winner(s, w);
        match s[w] {
            EvidenceView::Filesystem => DescriptionView { source: SourceLabel::Directory, scope: ScopeView::Unscoped, pane_count: count_panes(s) },
            EvidenceView::WorkspaceRoot { .. } => DescriptionView {
                source: SourceLabel::Workspace,
                scope: spec_workspace_scope(s),
                pane_count: count_panes(s),
            },
            EvidenceView::Pane { occupant, label, number, is_current_workspace, is_current_tab, .. } => DescriptionView {
                source: spec_pane_source(occupant),
                scope: spec_pane_scope(is_current_tab, is_current_workspace, label, number),
                pane_count: count_panes(s),
            },
        }
    }
}

fn strength(e: &Evidence) -> (r: u8)
    ensures
        r == spec_strength(e@),
{
    match e {
        Evidence::Pane { occupant: OccupantKind::Agent(AgentStatus::Idle), .. } => 0,
        Evidence::Pane { occupant: OccupantKind::Agent(AgentStatus::Done), .. } => 0,
        Evidence::WorkspaceRoot { .. } => 1,
        Evidence::Pane { .. } => 2,
        Evidence::Filesystem => 3,
    }
}

fn scope_rank(e: &Evidence) -> (r: u8)
    ensures
        r == spec_scope_rank(e@),
{
    match e {
        Evidence::Pane { is_current_tab: true, .. } => 0,
        Evidence::Pane { is_current_workspace: true, .. } => 1,
        Evidence::WorkspaceRoot { is_current: true, .. } => 1,
        _ => 2,
    }
}

fn pane_source(occupant: OccupantKind) -> (r: SourceLabel)
    ensures
        r == spec_pane_source(occupant),
{
    match occupant {
        OccupantKind::Shell => SourceLabel::ShellPane,
        OccupantKind::Agent(AgentStatus::Idle) => SourceLabel::AgentIdle,
        OccupantKind::Agent(AgentStatus::Done) => SourceLabel::AgentDone,
        OccupantKind::Agent(AgentStatus::Working) => SourceLabel::AgentWorking,
        OccupantKind::Agent(AgentStatus::Blocked) => SourceLabel::AgentBlocked,
        OccupantKind::Agent(AgentStatus::Unknown) => SourceLabel::AgentUnknown,
    }
}

fn pane_scope(is_current_tab: bool, is_current_workspace: bool, label: &str, number: usize) -> (r: ScopeLabel)
    ensures
        r@ == spec_pane_scope(is_current_tab, is_current_workspace, label@, number),
{
    if is_current_tab {
        ScopeLabel::CurrentTab
    } else if is_current_workspace {
        ScopeLabel::CurrentWorkspace
    } else {
        ScopeLabel::Workspace { label: String::from_str(label), number }
    }
}

fn occupant_kind(occupant: &Occupant) -> (k: OccupantKind)
    ensures
        k == spec_occupant_kind(*occupant),
{
    match occupant {
        Occupant::Shell(_) => OccupantKind::Shell,
        Occupant::Agent(status) => OccupantKind::Agent(*status),
    }
}

pub open spec fn spec_occupant_kind(o: Occupant) -> OccupantKind {
    match o {
        Occupant::Shell(_) => OccupantKind::Shell,
        Occupant::Agent(status) => OccupantKind::Agent(status),
    }
}


pub open spec fn entry_views(u: Seq<(WorkspaceId, String, usize, bool)>) -> Seq<(Seq<char>, Seq<char>, usize, bool)> {
    u.map_values(|x: (WorkspaceId, String, usize, bool)| (x.0@, x.1@, x.2, x.3))
}

fn find_entry(u: &Vec<(WorkspaceId, String, usize, bool)>, id: &WorkspaceId) -> (r: Option<usize>)
    ensures
        r matches Some(k) ==> first_entry_at(entry_views(u@), id@, k as int),
        r is None ==> forall|k: int| 0 <= k < u@.len() ==> #[trigger] entry_views(u@)[k].0 != id@,
{
    let mut i: usize = 0;
    while i < u.len()
        invariant
            i <= u@.len(),
            forall|k: int| 0 <= k < i ==> #[trigger] entry_views(u@)[k].0 != id@,
        decreases u@.len() - i,
    {
        if u[i].0.same(id) {
            return Some(i);
        }
        i += 1;
    }
    None
}

proof fn lemma_first_entry(u: Seq<(Seq<char>, Seq<char>, usize, bool)>, id: Seq<char>, k: int)
    requires
        first_entry_at(u, id, k),
    ensures
        first_entry(u, id) == k,
{
    let c = choose|c: int| first_entry_at(u, id, c);
    if c < k {
        assert(u[c].0 == id);
    } else if k < c {
        assert(u[k].0 == id);
    }
}

fn workspace_scope(evidence: &Vec<Evidence>) -> (r: ScopeLabel)
    ensures
        r@ == spec_workspace_scope(evidence_views(evidence@)),
{
    let ghost s = evidence_views(evidence@);
    let mut unique: Vec<(WorkspaceId, String, usize, bool)> = Vec::new();
    let mut i: usize = 0;
    while i < evidence.len()
        invariant
            i <= evidence@.len(),
            s == evidence_views(evidence@),
            entry_views(unique@) == unique_workspaces(s.take(i as int)),
        decreases evidence@.len() - i,
    {
        let ghost before = unique@;
        assert(s.take(i + 1).drop_last() =~= s.take(i as int));
        let entry: Option<(WorkspaceId, String, usize, bool)> = match &evidence[i] {
            Evidence::WorkspaceRoot { workspace_id, label, number, is_current } => Some((workspace_id.duplicate(), label.clone(), *number, *is_current)),
            Evidence::Pane { workspace_id, label, number, is_current_workspace, .. } => Some((workspace_id.duplicate(), label.clone(), *number, *is_current_workspace)),
            Evidence::Filesystem => None,
        };
        match entry {
            None => {
                assert(entry_views(unique@) =~= unique_workspaces(s.take(i + 1)));
            },
            Some(e) => {
                match find_entry(&unique, &e.0) {
                    Some(k) => {
                        proof { lemma_first_entry(entry_views(before), e.0@, k as int); }
                        let old_entry = unique.remove(k);
                        let merged = (old_entry.0, old_entry.1, old_entry.2, old_entry.3 || e.3);
                        unique.insert(k, merged);
                        assert(entry_views(unique@) =~= unique_workspaces(s.take(i + 1)));
                    },
                    None => {
                        proof {
                            if exists|c: int| first_entry_at(entry_views(before), e.0@, c) {
                                let c = choose|c: int| first_entry_at(entry_views(before), e.0@, c);
                                assert(entry_views(before)[c].0 == e.0@);
                            }
                        }
                        unique.push(e);
                        assert(entry_views(unique@) =~= unique_workspaces(s.take(i + 1)));
                    },
                }
            },
        }
        i += 1;
    }
    assert(s.take(evidence@.len() as int) =~= s);
    let ghost u = entry_views(unique@);
    let mut any_current = false;
    let mut k: usize = 0;
    while k < unique.len()
        invariant
            k <= unique@.len(),
            u == entry_views(unique@),
            any_current <==> exists|j: int| 0 <= j < k && #[trigger] u[j].3,
        decreases unique@.len() - k,
    {
        let ghost before = any_current;
        if unique[k].3 {
            any_current = true;
        }
        proof {
            assert(u[k as int].3 == unique@[k as int].3);
            if before {
                let j = choose|j: int| 0 <= j < k && #[trigger] u[j].3;
                assert(0 <= j < k + 1 && u[j].3);
            } else if any_current {
                assert(0 <= k < k + 1 && u[k as int].3);
            } else {
                assert forall|j: int| 0 <= j < k + 1 implies !#[trigger] u[j].3 by {
                    if j < k {
                        assert(!(0 <= j < k && u[j].3));
                    }
                }
            }
        }
        k += 1;
    }
    if any_current {
        ScopeLabel::CurrentWorkspace
    } else if unique.len() == 1 {
        ScopeLabel::Workspace { label: unique[0].1.clone(), number: unique[0].2 }
    } else if unique.len() > 1 {
        ScopeLabel::MultipleWorkspaces { count: unique.len() }
    } else {
        ScopeLabel::Unscoped
    }
}

/// Describe the evidence for one path: the strongest record by (strength,
/// scope), first on ties, with the exact number of pane records.
pub fn describe(evidence: &Vec<Evidence>) -> (d: DescriptionData)
    ensures
        d@ == spec_describe(evidence_views(evidence@)),
{
    let ghost s = evidence_views(evidence@);
    let mut pane_count: usize = 0;
    let mut i: usize = 0;
    while i < evidence.len()
        invariant
            i <= evidence@.len(),
            s == evidence_views(evidence@),
            pane_count == count_panes(s.take(i as int)),
            pane_count <= i,
        decreases evidence@.len() - i,
    {
        assert(s.take(i + 1).drop_last() =~= s.take(i as int));
        if let Evidence::Pane { .. } = &evidence[i] {
            pane_count += 1;
        }
        i += 1;
    }
    assert(s.take(evidence@.len() as int) =~= s);
    if evidence.len() == 0 {
        return DescriptionData { source: SourceLabel::Directory, scope: ScopeLabel::Unscoped, pane_count: 0 };
    }
    let mut w: usize = 0;
    let mut j: usize = 1;
    while j < evidence.len()
        invariant
            1 <= j <= evidence@.len(),
            s == evidence_views(evidence@),
            is_winner(s.take(j as int), w as int),
        decreases evidence@.len() - j,
    {
        let better = strength(&evidence[j]) < strength(&evidence[w])
            || (strength(&evidence[j]) == strength(&evidence[w]) && scope_rank(&evidence[j]) < scope_rank(&evidence[w]));
        let ghost t = s.take(j + 1);
        if better {
            assert forall|k: int| 0 <= k < j + 1 implies !outranks(#[trigger] t[k], t[j as int]) by {
                if k < j {
                    assert(!outranks(s.take(j as int)[k], s.take(j as int)[w as int]));
                }
            }
            assert forall|k: int| 0 <= k < j implies outranks(t[j as int], #[trigger] t[k]) by {
                assert(!outranks(s.take(j as int)[k], s.take(j as int)[w as int]));
            }
            w = j;
        } else {
            assert forall|k: int| 0 <= k < j + 1 implies !outranks(#[trigger] t[k], t[w as int]) by {
                if k < j {
                    assert(!outranks(s.take(j as int)[k], s.take(j as int)[w as int]));
                }
            }
            assert forall|k: int| 0 <= k < w implies outranks(t[w as int], #[trigger] t[k]) by {
                assert(outranks(s.take(j as int)[w as int], s.take(j as int)[k]));
            }
        }
        j += 1;
    }
    proof {
        assert(s.take(evidence@.len() as int) =~= s);
        let c = choose|c: int| is_winner(s, c);
        lemma_winner_unique(s, w as int, c);
    }
    match &evidence[w] {
        Evidence::Filesystem => DescriptionData { source: SourceLabel::Directory, scope: ScopeLabel::Unscoped, pane_count },
        Evidence::WorkspaceRoot { .. } => DescriptionData { source: SourceLabel::Workspace, scope: workspace_scope(evidence), pane_count },
        Evidence::Pane { occupant, label, number, is_current_workspace, is_current_tab, .. } => DescriptionData {
            source: pane_source(*occupant),
            scope: pane_scope(*is_current_tab, *is_current_workspace, label.as_str(), *number),
            pane_count,
        },
    }
}


/// Canonical path and evidence records of one group.
pub type GroupView = (Seq<Seq<char>>, Seq<EvidenceView>);

/// `k` is the first group whose path is `p`.
pub open spec fn first_group_at(g: Seq<GroupView>, p: Seq<Seq<char>>, k: int) -> bool {
    0 <= k < g.len() && g[k].0 == p && forall|j: int| 0 <= j < k ==> g[j].0 != p
}

pub open spec fn first_group(g: Seq<GroupView>, p: Seq<Seq<char>>) -> int {
    if exists|k: int| first_group_at(g, p, k) {
        choose|k: int| first_group_at(g, p, k)
    } else {
        -1
    }
}

/// Add one record to the group of its path, opening a new group at the end
/// when the path is new.
pub open spec fn insert_group(g: Seq<GroupView>, p: Seq<Seq<char>>, e: EvidenceView) -> Seq<GroupView> {
    let k = first_group(g, p);
    if k >= 0 {
        g.update(k, (g[k].0, g[k].1.push(e)))
    } else {
        g.push((p, seq![e]))
    }
}

/// Group the records in order, skipping the caller's own directory.
pub open spec fn group_items(g: Seq<GroupView>, items: Seq<(Seq<Seq<char>>, EvidenceView)>, cwd: Seq<Seq<char>>) -> Seq<GroupView>
    decreases items.len(),
{
    if items.len() == 0 {
        g
    } else {
        let prev = group_items(g, items.drop_last(), cwd);
        if items.last().0 == cwd {
            prev
        } else {
            insert_group(prev, items.last().0, items.last().1)
        }
    }
}

pub open spec fn filesystem_items(fs: Seq<Seq<Seq<char>>>) -> Seq<(Seq<Seq<char>>, EvidenceView)> {
    fs.map_values(|p: Seq<Seq<char>>| (p, EvidenceView::Filesystem))
}

/// Merged candidates: semantic records grouped by canonical path, then
/// filesystem paths; `None` (native fallback) when no semantic path survives
/// or the merged set exceeds the ceiling.
pub open spec fn spec_merge(semantic: Seq<(Seq<Seq<char>>, EvidenceView)>, fs: Seq<Seq<Seq<char>>>, cwd: Seq<Seq<char>>) -> Option<Seq<(Seq<Seq<char>>, DescriptionView)>> {
    let g1 = group_items(seq![], semantic, cwd);
    if g1.len() == 0 {
        None
    } else {
        let g2 = group_items(g1, filesystem_items(fs), cwd);
        if g2.len() > CANDIDATE_CEILING {
            None
        } else {
            Some(g2.map_values(|gr: GroupView| (gr.0, spec_describe(gr.1))))
        }
    }
}

pub open spec fn group_views(g: Seq<(CanonicalPath, Vec<Evidence>)>) -> Seq<GroupView> {
    g.map_values(|x: (CanonicalPath, Vec<Evidence>)| (x.0@, evidence_views(x.1@)))
}

pub open spec fn item_views(v: Seq<(CanonicalPath, Evidence)>) -> Seq<(Seq<Seq<char>>, EvidenceView)> {
    v.map_values(|x: (CanonicalPath, Evidence)| (x.0@, x.1@))
}

pub open spec fn path_views(v: Seq<CanonicalPath>) -> Seq<Seq<Seq<char>>> {
    v.map_values(|p: CanonicalPath| p@)
}

pub open spec fn candidate_views(v: Seq<CompletionCandidate>) -> Seq<(Seq<Seq<char>>, DescriptionView)> {
    v.map_values(|c: CompletionCandidate| (c.path@, c.description@))
}

fn find_group(groups: &Vec<(CanonicalPath, Vec<Evidence>)>, path: &CanonicalPath) -> (r: Option<usize>)
    ensures
        r matches Some(k) ==> first_group_at(group_views(groups@), path@, k as int),
        r is None ==> forall|k: int| 0 <= k < groups@.len() ==> #[trigger] group_views(groups@)[k].0 != path@,
{
    let mut i: usize = 0;
    while i < groups.len()
        invariant
            i <= groups@.len(),
            forall|k: int| 0 <= k < i ==> #[trigger] group_views(groups@)[k].0 != path@,
        decreases groups@.len() - i,
    {
        if groups[i].0.same_as(path) {
            return Some(i);
        }
        i += 1;
    }
    None
}

proof fn lemma_first_group(g: Seq<GroupView>, p: Seq<Seq<char>>, k: int)
    requires
        first_group_at(g, p, k),
    ensures
        first_group(g, p) == k,
{
    let c = choose|c: int| first_group_at(g, p, c);
    if c < k {
        assert(g[c].0 == p);
    } else if k < c {
        assert(g[k].0 == p);
    }
}

/// Add `evidence` to the group of `path`; true when the group is new.
fn insert_evidence(groups: &mut Vec<(CanonicalPath, Vec<Evidence>)>, path: CanonicalPath, evidence: Evidence) -> (created: bool)
    ensures
        group_views(final(groups)@) == insert_group(group_views(old(groups)@), path@, evidence@),
        created == (first_group(group_views(old(groups)@), path@) < 0),
{
    let ghost before = group_views(groups@);
    match find_group(groups, &path) {
        Some(k) => {
            proof { lemma_first_group(before, path@, k as int); }
            let ghost old_g = groups@;
            let (known, mut existing) = groups.remove(k);
            let ghost ev_before = existing@;
            assert(ev_before == old_g[k as int].1@);
            existing.push(evidence);
            assert(evidence_views(existing@) =~= evidence_views(ev_before).push(evidence@));
            groups.insert(k, (known, existing));
            assert(groups@ =~= old_g.update(k as int, (known, existing)));
            assert(group_views(groups@) =~= insert_group(before, path@, evidence@));
            false
        },
        None => {
            proof {
                if exists|c: int| first_group_at(before, path@, c) {
                    let c = choose|c: int| first_group_at(before, path@, c);
                    assert(before[c].0 == path@);
                }
            }
            let mut fresh: Vec<Evidence> = Vec::new();
            fresh.push(evidence);
            assert(evidence_views(fresh@) =~= seq![evidence@]);
            groups.push((path, fresh));
            assert(group_views(groups@) =~= insert_group(before, path@, evidence@));
            true
        },
    }
}

/// Merge semantic and filesystem evidence by canonical path. `None` means
/// native fallback: no semantic path survived, or the merged set exceeds
/// the ceiling.
pub fn merge_candidates(semantic: Vec<(CanonicalPath, Evidence)>, filesystem: Vec<CanonicalPath>, caller_cwd: &CanonicalPath) -> (r: Option<Vec<CompletionCandidate>>)
    ensures
        r is Some == spec_merge(item_views(semantic@), path_views(filesystem@), caller_cwd@) is Some,
        r matches Some(v) ==> candidate_views(v@) == spec_merge(item_views(semantic@), path_views(filesystem@), caller_cwd@)->0,
{
    let ghost sem = item_views(semantic@);
    let ghost fs = filesystem_items(path_views(filesystem@));
    let ghost cwd = caller_cwd@;
    let mut groups: Vec<(CanonicalPath, Vec<Evidence>)> = Vec::new();
    let mut i: usize = 0;
    while i < semantic.len()
        invariant
            i <= semantic@.len(),
            sem == item_views(semantic@),
            cwd == caller_cwd@,
            group_views(groups@) == group_items(seq![], sem.take(i as int), cwd),
        decreases semantic@.len() - i,
    {
        assert(sem.take(i + 1).drop_last() =~= sem.take(i as int));
        let path = &semantic[i].0;
        if !path.same_as(caller_cwd) {
            insert_evidence(&mut groups, path.duplicate(), semantic[i].1.duplicate());
        }
        i += 1;
    }
    assert(sem.take(semantic@.len() as int) =~= sem);
    if groups.len() == 0 {
        return None;
    }
    let ghost g1 = group_views(groups@);
    let mut j: usize = 0;
    while j < filesystem.len()
        invariant
            j <= filesystem@.len(),
            fs == filesystem_items(path_views(filesystem@)),
            cwd == caller_cwd@,
            group_views(groups@) == group_items(g1, fs.take(j as int), cwd),
        decreases filesystem@.len() - j,
    {
        assert(fs.take(j + 1).drop_last() =~= fs.take(j as int));
        let path = &filesystem[j];
        if !path.same_as(caller_cwd) {
            insert_evidence(&mut groups, path.duplicate(), Evidence::Filesystem);
        }
        j += 1;
    }
    assert(fs.take(filesystem@.len() as int) =~= fs);
    if groups.len() > CANDIDATE_CEILING {
        return None;
    }
    let ghost g2 = group_views(groups@);
    let mut out: Vec<CompletionCandidate> = Vec::new();
    let mut k: usize = 0;
    while k < groups.len()
        invariant
            k <= groups@.len(),
            g2 == group_views(groups@),
            candidate_views(out@) == g2.take(k as int).map_values(|gr: GroupView| (gr.0, spec_describe(gr.1))),
        decreases groups@.len() - k,
    {
        let description = describe(&groups[k].1);
        let ghost before = out@;
        let cand = CompletionCandidate { path: groups[k].0.duplicate(), description };
        assert(g2[k as int] == (groups@[k as int].0@, evidence_views(groups@[k as int].1@)));
        out.push(cand);
        assert(candidate_views(out@) =~= candidate_views(before).push((cand.path@, cand.description@)));
        assert(g2.take(k + 1) =~= g2.take(k as int).push(g2[k as int]));
        k += 1;
        assert(candidate_views(out@) =~= g2.take(k as int).map_values(|gr: GroupView| (gr.0, spec_describe(gr.1))));
    }
    assert(g2.take(groups@.len() as int) =~= g2);
    Some(out)
}


/// Group paths avoid the caller's directory and never repeat.
pub open spec fn groups_ok(g: Seq<GroupView>, cwd: Seq<Seq<char>>) -> bool {
    &&& forall|i: int| 0 <= i < g.len() ==> (#[trigger] g[i]).0 != cwd
    &&& forall|i: int, j: int| 0 <= i < j < g.len() ==> (#[trigger] g[i]).0 != (#[trigger] g[j]).0
}

proof fn lemma_group_at(g: Seq<GroupView>, cwd: Seq<Seq<char>>, p: Seq<Seq<char>>, i: int)
    requires
        groups_ok(g, cwd),
        0 <= i < g.len(),
        g[i].0 == p,
    ensures
        first_group(g, p) == i,
{
    assert forall|j: int| 0 <= j < i implies g[j].0 != p by {
        assert(g[j].0 != g[i].0);
    }
    assert(first_group_at(g, p, i));
    lemma_first_group(g, p, i);
}

proof fn lemma_no_group(g: Seq<GroupView>, p: Seq<Seq<char>>)
    requires
        forall|i: int| 0 <= i < g.len() ==> (#[trigger] g[i]).0 != p,
    ensures
        first_group(g, p) == -1,
{
    if exists|k: int| first_group_at(g, p, k) {
        let k = choose|k: int| first_group_at(g, p, k);
        assert(g[k].0 == p);
    }
}

/// Pane records of `p` held by its group, zero when `p` has no group.
pub open spec fn group_panes(g: Seq<GroupView>, p: Seq<Seq<char>>) -> nat {
    let k = first_group(g, p);
    if k >= 0 { count_panes(g[k].1) } else { 0 }
}

/// Number of pane records for path `p` among the items.
pub open spec fn panes_for(items: Seq<(Seq<Seq<char>>, EvidenceView)>, p: Seq<Seq<char>>) -> nat
    decreases items.len(),
{
    if items.len() == 0 {
        0
    } else {
        panes_for(items.drop_last(), p) + if items.last().0 == p && items.last().1 is Pane { 1nat } else { 0nat }
    }
}

proof fn lemma_insert_group(g: Seq<GroupView>, cwd: Seq<Seq<char>>, p: Seq<Seq<char>>, e: EvidenceView, q: Seq<Seq<char>>)
    requires
        groups_ok(g, cwd),
        p != cwd,
    ensures
        groups_ok(insert_group(g, p, e), cwd),
        group_panes(insert_group(g, p, e), q) == group_panes(g, q) + if q == p && e is Pane { 1nat } else { 0nat },
{
    let g2 = insert_group(g, p, e);
    let k = first_group(g, p);
    if k >= 0 {
        let c = choose|c: int| first_group_at(g, p, c);
        assert(first_group_at(g, p, c));
        assert(k == c);
        assert(g2 == g.update(k, (g[k].0, g[k].1.push(e))));
        assert forall|i: int, j: int| 0 <= i < j < g2.len() implies (#[trigger] g2[i]).0 != (#[trigger] g2[j]).0 by {
            assert(g2[i].0 == g[i].0 && g2[j].0 == g[j].0);
        }
        assert forall|i: int| 0 <= i < g2.len() implies (#[trigger] g2[i]).0 != cwd by {
            assert(g2[i].0 == g[i].0);
        }
        assert(g[k].1.push(e).drop_last() =~= g[k].1);
        if exists|i: int| 0 <= i < g.len() && g[i].0 == q {
            let i = choose|i: int| 0 <= i < g.len() && g[i].0 == q;
            lemma_group_at(g, cwd, q, i);
            assert(g2[i].0 == q);
            lemma_group_at(g2, cwd, q, i);
            if i == k {
                assert(g2[i].1 == g[k].1.push(e));
                assert(count_panes(g2[i].1) == count_panes(g[k].1) + if e is Pane { 1nat } else { 0nat });
            } else {
                assert(g2[i] == g[i]);
                assert(q != p);
            }
        } else {
            lemma_no_group(g, q);
            assert forall|i: int| 0 <= i < g2.len() implies (#[trigger] g2[i]).0 != q by {
                assert(g2[i].0 == g[i].0);
            }
            lemma_no_group(g2, q);
        }
    } else {
        assert(g2 == g.push((p, seq![e])));
        assert forall|i: int| 0 <= i < g.len() implies (#[trigger] g[i]).0 != p by {
            if g[i].0 == p {
                lemma_group_at(g, cwd, p, i);
            }
        }
        assert forall|i: int, j: int| 0 <= i < j < g2.len() implies (#[trigger] g2[i]).0 != (#[trigger] g2[j]).0 by {
            if j == g.len() {
                assert(g2[i].0 == g[i].0);
            } else {
                assert(g2[i].0 == g[i].0 && g2[j].0 == g[j].0);
            }
        }
        assert forall|i: int| 0 <= i < g2.len() implies (#[trigger] g2[i]).0 != cwd by {
            if i < g.len() {
                assert(g2[i].0 == g[i].0);
            }
        }
        assert(seq![e].drop_last() =~= Seq::<EvidenceView>::empty());
        if q == p {
            lemma_no_group(g, q);
            lemma_group_at(g2, cwd, q, g.len() as int);
            assert(g2[g.len() as int].1 == seq![e]);
            assert(count_panes(seq![e]) == count_panes(Seq::<EvidenceView>::empty()) + if e is Pane { 1nat } else { 0nat });
        } else if exists|i: int| 0 <= i < g.len() && g[i].0 == q {
            let i = choose|i: int| 0 <= i < g.len() && g[i].0 == q;
            lemma_group_at(g, cwd, q, i);
            assert(g2[i] == g[i]);
            lemma_group_at(g2, cwd, q, i);
        } else {
            lemma_no_group(g, q);
            assert forall|i: int| 0 <= i < g2.len() implies (#[trigger] g2[i]).0 != q by {
                if i < g.len() {
                    assert(g2[i].0 == g[i].0);
                }
            }
            lemma_no_group(g2, q);
        }
    }
}

proof fn lemma_group_items(g: Seq<GroupView>, items: Seq<(Seq<Seq<char>>, EvidenceView)>, cwd: Seq<Seq<char>>, q: Seq<Seq<char>>)
    requires
        groups_ok(g, cwd),
    ensures
        groups_ok(group_items(g, items, cwd), cwd),
        q != cwd ==> group_panes(group_items(g, items, cwd), q) == group_panes(g, q) + panes_for(items, q),
    decreases items.len(),
{
    if items.len() > 0 {
        lemma_group_items(g, items.drop_last(), cwd, q);
        let prev = group_items(g, items.drop_last(), cwd);
        if items.last().0 != cwd {
            lemma_insert_group(prev, cwd, items.last().0, items.last().1, q);
        }
    }
}

proof fn lemma_filesystem_panes(fs: Seq<Seq<Seq<char>>>, q: Seq<Seq<char>>)
    ensures
        panes_for(filesystem_items(fs), q) == 0,
    decreases fs.len(),
{
    if fs.len() > 0 {
        assert(filesystem_items(fs).drop_last() =~= filesystem_items(fs.drop_last()));
        lemma_filesystem_panes(fs.drop_last(), q);
    }
}

/// Merged candidates never include the caller's directory, never repeat a
/// canonical path, and each candidate counts exactly the semantic pane
/// records of its path.
pub proof fn law_merge_dedups_and_counts_panes(semantic: Seq<(Seq<Seq<char>>, EvidenceView)>, fs: Seq<Seq<Seq<char>>>, cwd: Seq<Seq<char>>)
    ensures
        spec_merge(semantic, fs, cwd) matches Some(v) ==> {
            &&& forall|i: int| 0 <= i < v.len() ==> (#[trigger] v[i]).0 != cwd
            &&& forall|i: int, j: int| 0 <= i < j < v.len() ==> (#[trigger] v[i]).0 != (#[trigger] v[j]).0
            &&& forall|i: int| 0 <= i < v.len() ==> (#[trigger] v[i]).1.pane_count == panes_for(semantic, v[i].0)
        },
{
    let g0 = Seq::<GroupView>::empty();
    let g1 = group_items(g0, semantic, cwd);
    let g2 = group_items(g1, filesystem_items(fs), cwd);
    lemma_group_items(g0, semantic, cwd, seq![]);
    lemma_group_items(g1, filesystem_items(fs), cwd, seq![]);
    if spec_merge(semantic, fs, cwd) is Some {
        let v = spec_merge(semantic, fs, cwd)->0;
        assert forall|i: int| 0 <= i < v.len() implies (#[trigger] v[i]).1.pane_count == panes_for(semantic, v[i].0) by {
            let q = g2[i].0;
            assert(q != cwd);
            lemma_group_items(g0, semantic, cwd, q);
            lemma_group_items(g1, filesystem_items(fs), cwd, q);
            lemma_filesystem_panes(fs, q);
            lemma_no_group(g0, q);
            lemma_group_at(g2, cwd, q, i);
            lemma_describe_counts(g2[i].1);
        }
    }
}

proof fn lemma_describe_counts(s: Seq<EvidenceView>)
    ensures
        spec_describe(s).pane_count == count_panes(s),
{
}


pub type EvidenceItem = (Seq<Seq<char>>, EvidenceView);

/// Evidence of one pane: its canonical foreground directory, if it has one.
pub open spec fn pane_evidence(w: Workspace, tab_id: Seq<char>, pane: crate::types::Pane, is_current: bool, current_tab: Seq<char>) -> Seq<EvidenceItem> {
    match pane.foreground_cwd {
        None => seq![],
        Some(path) => seq![(path@, EvidenceView::Pane {
            workspace_id: w.id@,
            tab_id,
            occupant: spec_occupant_kind(pane.occupant),
            label: w.label@,
            number: w.number,
            is_current_workspace: is_current,
            is_current_tab: is_current && tab_id == current_tab,
        })],
    }
}

pub open spec fn tab_evidence(w: Workspace, tab: crate::types::Tab, is_current: bool, current_tab: Seq<char>) -> Seq<EvidenceItem> {
    tab.panes@.map_values(|pane: crate::types::Pane| pane_evidence(w, tab.id@, pane, is_current, current_tab)).flatten()
}

pub open spec fn root_evidence(w: Workspace, is_current: bool) -> Seq<EvidenceItem> {
    match w.root {
        None => seq![],
        Some(root) => seq![(root@, EvidenceView::WorkspaceRoot { workspace_id: w.id@, label: w.label@, number: w.number, is_current })],
    }
}

pub open spec fn workspace_evidence(w: Workspace, current_workspace: Seq<char>, current_tab: Seq<char>) -> Seq<EvidenceItem> {
    let is_current = w.id@ == current_workspace;
    root_evidence(w, is_current) + w.tabs@.map_values(|tab: crate::types::Tab| tab_evidence(w, tab, is_current, current_tab)).flatten()
}

/// Workspace-root and pane-foreground evidence of a session, in snapshot
/// order: each workspace's root, then its panes tab by tab. Panes outside
/// the workspace root count; panes without a canonical directory do not.
pub open spec fn spec_session_evidence(session: Session, current_workspace: Seq<char>, current_tab: Seq<char>) -> Seq<EvidenceItem> {
    session.workspaces@.map_values(|w: Workspace| workspace_evidence(w, current_workspace, current_tab)).flatten()
}

/// Collect workspace-root and pane-foreground evidence from a typed session.
pub fn session_evidence(session: &Session, current_workspace: &WorkspaceId, current_tab: &TabId) -> (r: Vec<(CanonicalPath, Evidence)>)
    ensures
        item_views(r@) == spec_session_evidence(*session, current_workspace@, current_tab@),
{
    let ghost cw = current_workspace@;
    let ghost ct = current_tab@;
    let ghost wf = |w: Workspace| workspace_evidence(w, cw, ct);
    let mut evidence: Vec<(CanonicalPath, Evidence)> = Vec::new();
    let mut wi: usize = 0;
    while wi < session.workspaces.len()
        invariant
            wi <= session.workspaces@.len(),
            cw == current_workspace@,
            ct == current_tab@,
            wf == |w: Workspace| workspace_evidence(w, cw, ct),
            item_views(evidence@) == session.workspaces@.take(wi as int).map_values(wf).flatten(),
        decreases session.workspaces@.len() - wi,
    {
        let workspace = &session.workspaces[wi];
        let ghost w = *workspace;
        let ghost prefix = item_views(evidence@);
        let is_current = workspace.id.same(current_workspace);
        let ghost tf = |tab: crate::types::Tab| tab_evidence(w, tab, is_current, ct);
        if let Some(root) = &workspace.root {
            evidence.push((root.duplicate(), Evidence::WorkspaceRoot {
                workspace_id: workspace.id.duplicate(),
                label: workspace.label.clone(),
                number: workspace.number,
                is_current,
            }));
        }
        assert(item_views(evidence@) =~= prefix + root_evidence(w, is_current));
        let mut ti: usize = 0;
        while ti < workspace.tabs.len()
            invariant
                ti <= w.tabs@.len(),
                w == *workspace,
                is_current == (w.id@ == cw),
                tf == |tab: crate::types::Tab| tab_evidence(w, tab, is_current, ct),
                ct == current_tab@,
                item_views(evidence@) == prefix + root_evidence(w, is_current) + w.tabs@.take(ti as int).map_values(tf).flatten(),
            decreases w.tabs@.len() - ti,
        {
            let tab = &workspace.tabs[ti];
            let ghost t = *tab;
            let ghost tab_prefix = item_views(evidence@);
            let is_current_tab = is_current && tab.id.same(current_tab);
            let ghost pf = |pane: crate::types::Pane| pane_evidence(w, t.id@, pane, is_current, ct);
            let mut pi: usize = 0;
            while pi < tab.panes.len()
                invariant
                    pi <= t.panes@.len(),
                    t == *tab,
                    w == *workspace,
                    is_current == (w.id@ == cw),
                    is_current_tab == (is_current && t.id@ == ct),
                    pf == |pane: crate::types::Pane| pane_evidence(w, t.id@, pane, is_current, ct),
                    item_views(evidence@) == tab_prefix + t.panes@.take(pi as int).map_values(pf).flatten(),
                decreases t.panes@.len() - pi,
            {
                let pane = &tab.panes[pi];
                let ghost before = item_views(evidence@);
                if let Some(path) = &pane.foreground_cwd {
                    evidence.push((path.duplicate(), Evidence::Pane {
                        workspace_id: workspace.id.duplicate(),
                        tab_id: tab.id.duplicate(),
                        occupant: occupant_kind(&pane.occupant),
                        label: workspace.label.clone(),
                        number: workspace.number,
                        is_current_workspace: is_current,
                        is_current_tab,
                    }));
                }
                assert(item_views(evidence@) =~= before + pf(*pane));
                assert(t.panes@.take(pi + 1).map_values(pf) =~= t.panes@.take(pi as int).map_values(pf).push(pf(*pane)));
                proof { t.panes@.take(pi as int).map_values(pf).lemma_flatten_push(pf(*pane)); }
                pi += 1;
            }
            assert(t.panes@.take(t.panes@.len() as int) =~= t.panes@);
            assert(w.tabs@.take(ti + 1).map_values(tf) =~= w.tabs@.take(ti as int).map_values(tf).push(tf(t)));
            proof { w.tabs@.take(ti as int).map_values(tf).lemma_flatten_push(tf(t)); }
            ti += 1;
        }
        assert(w.tabs@.take(w.tabs@.len() as int) =~= w.tabs@);
        assert(session.workspaces@.take(wi + 1).map_values(wf) =~= session.workspaces@.take(wi as int).map_values(wf).push(wf(w)));
        proof { session.workspaces@.take(wi as int).map_values(wf).lemma_flatten_push(wf(w)); }
        wi += 1;
    }
    assert(session.workspaces@.take(session.workspaces@.len() as int) =~= session.workspaces@);
    evidence
}

} // verus!
