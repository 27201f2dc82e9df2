use nu_plugin_herdr_navigate_directory::error::ErrorKind;
use nu_plugin_herdr_navigate_directory::herdr::inspect::{
    apply_shell_evidence, exact_path_shell_candidates, fill_targets, inspect_live_caller, inspect_process, inspect_snapshot, live_caller,
    map_agent_status, map_session, session_contains, LiveCaller, ProcessInspection, RawAgentStatus, RawLayout, RawPane, RawProcessInfo,
    RawSnapshot, RawTab, RawWorkspace, SessionInspection,
};
use nu_plugin_herdr_navigate_directory::herdr::protocol::CommandResult;
use nu_plugin_herdr_navigate_directory::path::CanonicalPath;
use nu_plugin_herdr_navigate_directory::types::{AgentStatus, Occupant, PaneId, TabId, WorkspaceId};

const ROOT: &str = "/work/root";

fn cp(path: &str) -> CanonicalPath {
    CanonicalPath::parse(path).unwrap()
}

fn snapshot(root: Option<&str>, worktree: Option<Option<&str>>) -> RawSnapshot {
    RawSnapshot {
        version: "0.8.2".into(),
        protocol: 20,
        focused_workspace_id: Some("w1".into()),
        workspaces: vec![RawWorkspace {
            workspace_id: "w1".into(),
            number: 1,
            label: "repo".into(),
            active_tab_id: "w1:t1".into(),
            worktree: worktree.map(|w| w.map(cp)),
        }],
        tabs: vec![RawTab { tab_id: "w1:t1".into(), workspace_id: "w1".into() }],
        panes: vec![
            RawPane {
                pane_id: "w1:p1".into(),
                workspace_id: "w1".into(),
                tab_id: "w1:t1".into(),
                focused: true,
                agent_status: RawAgentStatus::Idle,
                agent: None,
                cwd: root.map(cp),
                foreground_cwd: root.map(cp),
            },
            RawPane {
                pane_id: "w1:p2".into(),
                workspace_id: "w1".into(),
                tab_id: "w1:t1".into(),
                focused: false,
                agent_status: RawAgentStatus::Working,
                agent: Some("codex".into()),
                cwd: None,
                foreground_cwd: root.map(|r| cp(&format!("{r}/src"))),
            },
        ],
        layouts: vec![RawLayout { workspace_id: "w1".into(), tab_id: "w1:t1".into(), focused_pane_id: "w1:p1".into() }],
    }
}

fn current(pane_id: &str) -> RawPane {
    RawPane {
        pane_id: pane_id.into(),
        workspace_id: "w1".into(),
        tab_id: "w1:t1".into(),
        focused: true,
        agent_status: RawAgentStatus::Idle,
        agent: None,
        cwd: None,
        foreground_cwd: Some(cp(ROOT)),
    }
}

fn process(complete: bool) -> RawProcessInfo {
    if complete {
        RawProcessInfo { pane_id: "w1:p1".into(), shell_pid: Some(42), foreground_process_group_id: Some(42), foreground_pids: vec![42] }
    } else {
        RawProcessInfo { pane_id: "w1:p1".into(), shell_pid: None, foreground_process_group_id: None, foreground_pids: vec![] }
    }
}

#[test]
fn maps_snapshot_into_domain_types_without_transport_json() {
    let session = map_session(&snapshot(Some(ROOT), None)).unwrap();
    assert_eq!(session.focused_workspace_id, Some(WorkspaceId::new("w1")));
    assert_eq!(session.workspaces[0].root.as_ref(), Some(&cp(ROOT)));
    assert_eq!(session.workspaces[0].label, "repo");
    assert_eq!(session.workspaces[0].tabs[0].focused_pane_id, Some(PaneId::new("w1:p1")));
    assert!(matches!(session.workspaces[0].tabs[0].panes[0].occupant, Occupant::Shell(None)));
    assert!(matches!(session.workspaces[0].tabs[0].panes[1].occupant, Occupant::Agent(AgentStatus::Working)));
    let shells = exact_path_shell_candidates(&session, &cp(ROOT));
    assert_eq!(shells, vec![(0, 0, 0)]);
    assert_eq!(fill_targets(&session, &cp(ROOT)), vec![PaneId::new("w1:p1")]);
}

#[test]
fn inspect_session_uses_live_ids_and_rejects_stale_identity() {
    let session = inspect_snapshot(CommandResult::Completed(snapshot(Some(ROOT), None))).unwrap().unwrap();
    let SessionInspection::Ready { live, session: ready } = inspect_live_caller(session.clone(), CommandResult::Completed(current("w1:p1"))).unwrap() else {
        panic!("expected ready inspection");
    };
    assert_eq!(live, LiveCaller { workspace_id: WorkspaceId::new("w1"), tab_id: TabId::new("w1:t1"), pane_id: PaneId::new("w1:p1") });
    assert_eq!(ready.workspaces[0].id, WorkspaceId::new("w1"));

    assert_eq!(inspect_live_caller(session.clone(), CommandResult::Completed(current("w-missing:p9"))).unwrap(), SessionInspection::Stale);
    assert_eq!(
        inspect_live_caller(session.clone(), CommandResult::NotFound { code: "not_found".into(), message: "gone".into() }).unwrap(),
        SessionInspection::Stale
    );
    assert_eq!(inspect_snapshot(CommandResult::NotFound { code: "not_found".into(), message: "x".into() }).unwrap(), None);
    let incomplete = inspect_live_caller(session, CommandResult::Completed(current(""))).unwrap_err();
    assert_eq!(incomplete.kind(), ErrorKind::HerdrProtocol);
}

#[test]
fn process_info_incomplete_and_not_found_are_distinct() {
    let ProcessInspection::Evidence(evidence) = inspect_process(&PaneId::new("w1:p1"), CommandResult::Completed(process(false))).unwrap() else {
        panic!("expected evidence");
    };
    assert!(evidence.shell_pid.is_none());
    assert!(!Occupant::Shell(Some(evidence.clone())).is_idle());

    let mut session = map_session(&snapshot(Some(ROOT), None)).unwrap();
    apply_shell_evidence(&mut session, &PaneId::new("w1:p1"), evidence);
    assert!(!session.workspaces[0].tabs[0].panes[0].occupant.is_idle());

    let ProcessInspection::Evidence(complete) = inspect_process(&PaneId::new("w1:p1"), CommandResult::Completed(process(true))).unwrap() else {
        panic!("expected evidence");
    };
    let mut session = map_session(&snapshot(Some(ROOT), None)).unwrap();
    apply_shell_evidence(&mut session, &PaneId::new("w1:p1"), complete);
    assert!(session.workspaces[0].tabs[0].panes[0].occupant.is_idle());

    assert_eq!(
        inspect_process(&PaneId::new("w1:p1"), CommandResult::NotFound { code: "not_found".into(), message: "pane not found".into() }).unwrap(),
        ProcessInspection::NotFound
    );

    let mut other = process(true);
    other.pane_id = "other".into();
    let err = inspect_process(&PaneId::new("w1:p1"), CommandResult::Completed(other)).unwrap_err();
    assert_eq!(err.kind(), ErrorKind::HerdrProtocol);
    assert!(err.message().contains("mismatched pane id"));
}

#[test]
fn worktree_checkout_path_is_the_workspace_root() {
    let session = map_session(&snapshot(None, Some(Some("/work/checkout")))).unwrap();
    assert_eq!(session.workspaces[0].root.as_ref(), Some(&cp("/work/checkout")));
    let unreadable = map_session(&snapshot(Some(ROOT), Some(None))).unwrap();
    assert!(unreadable.workspaces[0].root.is_none());
}

#[test]
fn invalid_workspace_root_is_excluded_without_failing() {
    let session = map_session(&snapshot(None, None)).unwrap();
    assert!(session.workspaces[0].root.is_none());
    assert!(session.workspaces[0].tabs[0].panes[0].foreground_cwd.is_none());
}

#[test]
fn structural_snapshot_errors_are_protocol_errors() {
    let mut duplicate = snapshot(Some(ROOT), None);
    duplicate.workspaces.push(duplicate.workspaces[0].clone());
    assert_eq!(map_session(&duplicate).unwrap_err().message(), "session snapshot contains a duplicate workspace id");

    let mut orphan_tab = snapshot(Some(ROOT), None);
    orphan_tab.tabs[0].workspace_id = "w9".into();
    assert_eq!(map_session(&orphan_tab).unwrap_err().message(), "session snapshot tab references an unknown workspace");

    let mut orphan_pane = snapshot(Some(ROOT), None);
    orphan_pane.panes[1].tab_id = "w1:t9".into();
    assert_eq!(map_session(&orphan_pane).unwrap_err().message(), "session snapshot pane references an unknown tab");

    let mut empty_id = snapshot(Some(ROOT), None);
    empty_id.panes[0].pane_id = String::new();
    assert_eq!(map_session(&empty_id).unwrap_err().kind(), ErrorKind::HerdrProtocol);

    let mut old = snapshot(Some(ROOT), None);
    old.version = "0.8.1".into();
    assert_eq!(inspect_snapshot(CommandResult::Completed(old)).unwrap_err().kind(), ErrorKind::IncompatibleHerdr);
}

#[test]
fn focus_falls_back_to_the_focused_pane_and_empty_focus_is_unnamed() {
    let mut raw = snapshot(Some(ROOT), None);
    raw.layouts.clear();
    let session = map_session(&raw).unwrap();
    assert_eq!(session.workspaces[0].tabs[0].focused_pane_id, Some(PaneId::new("w1:p1")));
    let mut raw = snapshot(Some(ROOT), None);
    raw.focused_workspace_id = Some(String::new());
    assert_eq!(map_session(&raw).unwrap().focused_workspace_id, None);
}

#[test]
fn live_caller_and_containment_use_exact_ids() {
    let live = live_caller(&current("w1:p2")).unwrap();
    let session = map_session(&snapshot(Some(ROOT), None)).unwrap();
    assert!(session_contains(&session, &live));
    let elsewhere = LiveCaller { workspace_id: WorkspaceId::new("w1"), tab_id: TabId::new("w1:t2"), pane_id: PaneId::new("w1:p2") };
    assert!(!session_contains(&session, &elsewhere));
    assert_eq!(map_agent_status(RawAgentStatus::Done), AgentStatus::Done);
    assert_eq!(map_agent_status(RawAgentStatus::Unknown), AgentStatus::Unknown);
}
