use nu_plugin_herdr_navigate_directory::path::CanonicalPath;
use nu_plugin_herdr_navigate_directory::types::{
    AgentIdlePolicy, AgentStatus, ForegroundProcess, Occupant, Pane, PaneId, ShellProcessEvidence, TabId, WorkspaceId,
};

fn shell(shell_pid: Option<u32>, pgid: Option<u32>, pids: &[u32]) -> Occupant {
    Occupant::Shell(Some(ShellProcessEvidence {
        shell_pid,
        foreground_process_group_id: pgid,
        foreground_processes: pids.iter().copied().map(|pid| ForegroundProcess { pid }).collect(),
    }))
}

#[test]
fn agent_idle_and_done_are_eligible_other_states_are_not() {
    assert!(Occupant::Agent(AgentStatus::Idle).is_idle());
    assert!(Occupant::Agent(AgentStatus::Done).is_idle());
    assert!(!Occupant::Agent(AgentStatus::Working).is_idle());
    assert!(!Occupant::Agent(AgentStatus::Blocked).is_idle());
    assert!(!Occupant::Agent(AgentStatus::Unknown).is_idle());
}

#[test]
fn shell_is_idle_only_with_complete_foreground_proof() {
    assert!(shell(Some(7), Some(7), &[7]).is_idle());
    assert!(shell(Some(7), Some(99), &[7]).is_idle());
    assert!(!Occupant::Shell(None).is_idle());
    assert!(!shell(None, Some(7), &[7]).is_idle());
    assert!(!shell(Some(7), None, &[7]).is_idle());
    assert!(!shell(Some(7), Some(7), &[]).is_idle());
    assert!(!shell(Some(7), Some(7), &[7, 8]).is_idle());
    assert!(!shell(Some(7), Some(8), &[8]).is_idle());
}

#[test]
fn pane_without_canonical_foreground_cwd_cannot_match() {
    let target = CanonicalPath::parse("/repo").unwrap();
    let pane = Pane { id: PaneId::new("p1"), foreground_cwd: None, occupant: Occupant::Agent(AgentStatus::Idle) };
    assert!(!pane.is_eligible_at(&target));
}

#[test]
fn resource_ids_preserve_their_string_values() {
    assert_eq!(WorkspaceId::new("ws-a").as_str(), "ws-a");
    assert_eq!(TabId::new("tab-a").as_str(), "tab-a");
    assert_eq!(PaneId::new("pane-a").as_str(), "pane-a");
}

#[test]
fn policy_from_statuses_permits_exactly_the_listed_statuses() {
    let policy = AgentIdlePolicy::from_statuses(&[AgentStatus::Working, AgentStatus::Working]);
    assert!(policy.allows(AgentStatus::Working));
    assert!(!policy.allows(AgentStatus::Idle));
    assert!(!policy.allows(AgentStatus::Done));
    assert!(!policy.allows(AgentStatus::Blocked));
    assert!(!policy.allows(AgentStatus::Unknown));

    let unknown = AgentIdlePolicy::from_statuses(&[AgentStatus::Unknown]);
    assert!(!unknown.allows(AgentStatus::Unknown));

    let empty = AgentIdlePolicy::from_statuses(&[]);
    for status in [AgentStatus::Idle, AgentStatus::Done, AgentStatus::Working, AgentStatus::Blocked, AgentStatus::Unknown] {
        assert!(!empty.allows(status));
    }

    let default = AgentIdlePolicy::default();
    assert_eq!(default, AgentIdlePolicy::default_policy());
    assert!(default.allows(AgentStatus::Idle));
    assert!(default.allows(AgentStatus::Done));
    assert!(!default.allows(AgentStatus::Working));
}

#[test]
fn policy_never_changes_shell_reusability() {
    let none = AgentIdlePolicy::from_statuses(&[]);
    let all = AgentIdlePolicy::from_statuses(&[AgentStatus::Idle, AgentStatus::Done, AgentStatus::Working, AgentStatus::Blocked]);
    for occupant in [shell(Some(7), Some(7), &[7]), shell(Some(7), Some(7), &[8]), Occupant::Shell(None)] {
        assert_eq!(occupant.is_idle_under(&none), occupant.is_idle_under(&all));
    }
    assert!(!Occupant::Agent(AgentStatus::Idle).is_idle_under(&none));
    assert!(Occupant::Agent(AgentStatus::Blocked).is_idle_under(&all));
}

#[test]
fn pane_at_target_with_reusable_occupant_is_eligible() {
    let target = CanonicalPath::parse("/repo").unwrap();
    let pane = Pane { id: PaneId::new("p1"), foreground_cwd: Some(target.clone()), occupant: shell(Some(3), Some(3), &[3]) };
    assert!(pane.is_eligible_at(&target));
    let elsewhere = CanonicalPath::parse("/repo/src").unwrap();
    assert!(!pane.is_eligible_at(&elsewhere));
}
