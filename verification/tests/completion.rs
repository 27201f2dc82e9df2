use nu_plugin_herdr_navigate_directory::completion::{
    filesystem_path_allowed, merge_candidates, semantic_path_allowed, session_evidence, CompletionCandidate, DescriptionData, Evidence,
    OccupantKind, PrefixBound, ScopeLabel, SourceLabel, CANDIDATE_CEILING,
};
use nu_plugin_herdr_navigate_directory::path::CanonicalPath;
use nu_plugin_herdr_navigate_directory::types::{AgentStatus, Occupant, Pane, PaneId, Session, Tab, TabId, Workspace, WorkspaceId};

fn cp(path: &str) -> CanonicalPath {
    CanonicalPath::parse(path).unwrap()
}

fn bound(base: &str, remaining: &str) -> PrefixBound {
    PrefixBound {
        base: cp(base),
        remaining: remaining.to_string(),
    }
}

fn idle_agent() -> OccupantKind {
    OccupantKind::Agent(AgentStatus::Idle)
}

fn workspace(
    id: &str,
    label: &str,
    number: usize,
    root: Option<&str>,
    tabs: Vec<Tab>,
) -> Workspace {
    Workspace {
        id: WorkspaceId::new(id),
        root: root.map(cp),
        focused_tab_id: tabs.first().map(|tab| tab.id.clone()),
        tabs,
        label: label.to_string(),
        number,
    }
}

fn tab(id: &str, panes: Vec<Pane>) -> Tab {
    Tab {
        id: TabId::new(id),
        focused_pane_id: panes.first().map(|pane| pane.id.clone()),
        panes,
    }
}

fn pane(id: &str, cwd: Option<&str>, occupant: Occupant) -> Pane {
    Pane {
        id: PaneId::new(id),
        foreground_cwd: cwd.map(cp),
        occupant,
    }
}

fn candidate_at<'a>(
    candidates: &'a [CompletionCandidate],
    path: &str,
) -> &'a CompletionCandidate {
    candidates
        .iter()
        .find(|candidate| candidate.path.as_str() == path)
        .unwrap_or_else(|| panic!("missing candidate {path}"))
}

#[test]
fn aggregates_workspace_pane_and_filesystem_evidence() {
    let semantic = vec![
        (
            cp("/repo"),
            Evidence::WorkspaceRoot {
                workspace_id: WorkspaceId::new("w1"),
                label: "repo".into(),
                number: 1,
                is_current: true,
            },
        ),
        (
            cp("/repo"),
            Evidence::Pane {
                workspace_id: WorkspaceId::new("w1"),
                tab_id: TabId::new("t1"),
                occupant: OccupantKind::Shell,
                label: "repo".into(),
                number: 1,
                is_current_workspace: true,
                is_current_tab: true,
            },
        ),
    ];
    let merged = merge_candidates(semantic, vec![cp("/repo")], &cp("/cwd")).unwrap();
    assert_eq!(merged.len(), 1);
    assert_eq!(
        merged[0].description,
        DescriptionData {
            source: SourceLabel::Workspace,
            scope: ScopeLabel::CurrentWorkspace,
            pane_count: 1,
        }
    );
}

#[test]
fn canonical_dedup_keeps_exact_pane_counts() {
    let semantic = vec![
        (
            cp("/repo/src"),
            Evidence::Pane {
                workspace_id: WorkspaceId::new("w1"),
                tab_id: TabId::new("t1"),
                occupant: idle_agent(),
                label: "repo".into(),
                number: 1,
                is_current_workspace: true,
                is_current_tab: true,
            },
        ),
        (
            cp("/repo/src"),
            Evidence::Pane {
                workspace_id: WorkspaceId::new("w1"),
                tab_id: TabId::new("t2"),
                occupant: OccupantKind::Shell,
                label: "repo".into(),
                number: 1,
                is_current_workspace: true,
                is_current_tab: false,
            },
        ),
    ];
    let merged = merge_candidates(semantic, vec![], &cp("/cwd")).unwrap();
    assert_eq!(merged[0].description.pane_count, 2);
    assert_eq!(merged[0].description.source, SourceLabel::AgentIdle);
    assert_eq!(merged[0].description.scope, ScopeLabel::CurrentTab);
}

#[test]
fn provenance_does_not_mix_idle_status_with_another_pane_scope() {
    let semantic = vec![
        (
            cp("/repo"),
            Evidence::Pane {
                workspace_id: WorkspaceId::new("w-other"),
                tab_id: TabId::new("t-other"),
                occupant: idle_agent(),
                label: "other".into(),
                number: 2,
                is_current_workspace: false,
                is_current_tab: false,
            },
        ),
        (
            cp("/repo"),
            Evidence::Pane {
                workspace_id: WorkspaceId::new("w1"),
                tab_id: TabId::new("t1"),
                occupant: OccupantKind::Shell,
                label: "repo".into(),
                number: 1,
                is_current_workspace: true,
                is_current_tab: true,
            },
        ),
    ];
    let description = &merge_candidates(semantic, vec![], &cp("/cwd")).unwrap()[0].description;
    assert_eq!(description.source, SourceLabel::AgentIdle);
    assert_eq!(
        description.scope,
        ScopeLabel::Workspace {
            label: "other".into(),
            number: 2,
        }
    );
    assert_eq!(description.pane_count, 2);
}

#[test]
fn prefers_current_tab_then_current_workspace_for_equal_idle_agents() {
    let semantic = vec![
        (
            cp("/repo"),
            Evidence::Pane {
                workspace_id: WorkspaceId::new("w2"),
                tab_id: TabId::new("t-other"),
                occupant: OccupantKind::Agent(AgentStatus::Done),
                label: "other".into(),
                number: 2,
                is_current_workspace: false,
                is_current_tab: false,
            },
        ),
        (
            cp("/repo"),
            Evidence::Pane {
                workspace_id: WorkspaceId::new("w1"),
                tab_id: TabId::new("t1"),
                occupant: idle_agent(),
                label: "repo".into(),
                number: 1,
                is_current_workspace: true,
                is_current_tab: true,
            },
        ),
    ];
    let description = &merge_candidates(semantic, vec![], &cp("/cwd")).unwrap()[0].description;
    assert_eq!(description.source, SourceLabel::AgentIdle);
    assert_eq!(description.scope, ScopeLabel::CurrentTab);
}

#[test]
fn multi_workspace_paths_use_current_label_or_count() {
    let current_and_other = vec![
        (
            cp("/shared"),
            Evidence::WorkspaceRoot {
                workspace_id: WorkspaceId::new("w1"),
                label: "one".into(),
                number: 1,
                is_current: true,
            },
        ),
        (
            cp("/shared"),
            Evidence::WorkspaceRoot {
                workspace_id: WorkspaceId::new("w2"),
                label: "two".into(),
                number: 2,
                is_current: false,
            },
        ),
    ];
    assert_eq!(
        merge_candidates(current_and_other, vec![], &cp("/cwd")).unwrap()[0]
            .description
            .scope,
        ScopeLabel::CurrentWorkspace
    );

    let two_others = vec![
        (
            cp("/shared"),
            Evidence::WorkspaceRoot {
                workspace_id: WorkspaceId::new("w2"),
                label: "two".into(),
                number: 2,
                is_current: false,
            },
        ),
        (
            cp("/shared"),
            Evidence::Pane {
                workspace_id: WorkspaceId::new("w3"),
                tab_id: TabId::new("t3"),
                occupant: OccupantKind::Shell,
                label: "three".into(),
                number: 3,
                is_current_workspace: false,
                is_current_tab: false,
            },
        ),
    ];
    assert_eq!(
        merge_candidates(two_others, vec![], &cp("/cwd")).unwrap()[0]
            .description
            .scope,
        ScopeLabel::MultipleWorkspaces { count: 2 }
    );
}

#[test]
fn caller_cwd_is_excluded_from_every_source() {
    let semantic = vec![
        (
            cp("/cwd"),
            Evidence::WorkspaceRoot {
                workspace_id: WorkspaceId::new("w1"),
                label: "cwd".into(),
                number: 1,
                is_current: true,
            },
        ),
        (
            cp("/cwd"),
            Evidence::Pane {
                workspace_id: WorkspaceId::new("w1"),
                tab_id: TabId::new("t1"),
                occupant: idle_agent(),
                label: "cwd".into(),
                number: 1,
                is_current_workspace: true,
                is_current_tab: true,
            },
        ),
        (
            cp("/other"),
            Evidence::Pane {
                workspace_id: WorkspaceId::new("w1"),
                tab_id: TabId::new("t1"),
                occupant: OccupantKind::Shell,
                label: "cwd".into(),
                number: 1,
                is_current_workspace: true,
                is_current_tab: true,
            },
        ),
    ];
    let merged = merge_candidates(semantic, vec![cp("/cwd"), cp("/fs")], &cp("/cwd")).unwrap();
    let paths: Vec<_> = merged
        .iter()
        .map(|candidate| candidate.path.as_str())
        .collect();
    assert!(paths.contains(&"/other".to_string()));
    assert!(paths.contains(&"/fs".to_string()));
    assert!(!paths.contains(&"/cwd".to_string()));
}

#[test]
fn idle_and_done_outrank_workspace_and_other_panes() {
    let cases = [
        (AgentStatus::Idle, SourceLabel::AgentIdle),
        (AgentStatus::Done, SourceLabel::AgentDone),
    ];
    for (status, source) in cases {
        let semantic = vec![
            (
                cp("/repo"),
                Evidence::WorkspaceRoot {
                    workspace_id: WorkspaceId::new("w1"),
                    label: "repo".into(),
                    number: 1,
                    is_current: true,
                },
            ),
            (
                cp("/repo"),
                Evidence::Pane {
                    workspace_id: WorkspaceId::new("w1"),
                    tab_id: TabId::new("t1"),
                    occupant: OccupantKind::Agent(status),
                    label: "repo".into(),
                    number: 1,
                    is_current_workspace: true,
                    is_current_tab: false,
                },
            ),
        ];
        assert_eq!(
            merge_candidates(semantic, vec![], &cp("/cwd")).unwrap()[0]
                .description
                .source,
            source
        );
    }
}

#[test]
fn non_reusable_agent_and_shell_labels_are_truthful() {
    let cases = [
        (
            OccupantKind::Agent(AgentStatus::Working),
            SourceLabel::AgentWorking,
        ),
        (
            OccupantKind::Agent(AgentStatus::Blocked),
            SourceLabel::AgentBlocked,
        ),
        (
            OccupantKind::Agent(AgentStatus::Unknown),
            SourceLabel::AgentUnknown,
        ),
        (OccupantKind::Shell, SourceLabel::ShellPane),
    ];
    for (occupant, source) in cases {
        let semantic = vec![(
            cp("/repo"),
            Evidence::Pane {
                workspace_id: WorkspaceId::new("w1"),
                tab_id: TabId::new("t1"),
                occupant,
                label: "repo".into(),
                number: 1,
                is_current_workspace: true,
                is_current_tab: false,
            },
        )];
        let description = &merge_candidates(semantic, vec![], &cp("/cwd")).unwrap()[0].description;
        assert_eq!(description.source, source);
        assert_eq!(description.scope, ScopeLabel::CurrentWorkspace);
    }
}

#[test]
fn empty_discovery_keeps_session_paths_and_hides_untyped_dot_components() {
    let caller = cp("/home/me/downloads");
    assert!(semantic_path_allowed(&cp("/home/me/src"), &caller, None));
    assert!(!semantic_path_allowed(
        &cp("/home/me/.config"),
        &caller,
        None
    ));
    assert!(!semantic_path_allowed(
        &cp("/home/me/src/.git"),
        &caller,
        None
    ));
    assert!(!semantic_path_allowed(&caller, &caller, None));
}

#[test]
fn non_empty_prefix_is_physical_and_case_sensitive() {
    let prefix = bound("/home/me/src", "hc");
    let caller = cp("/home/me/downloads");
    assert!(semantic_path_allowed(
        &cp("/home/me/src/hc-v2"),
        &caller,
        Some(&prefix)
    ));
    assert!(semantic_path_allowed(
        &cp("/home/me/src/hc-v2/crates/api"),
        &caller,
        Some(&prefix)
    ));
    assert!(!semantic_path_allowed(
        &cp("/home/me/src/HC-v2"),
        &caller,
        Some(&prefix)
    ));
    assert!(!semantic_path_allowed(
        &cp("/home/me/other"),
        &caller,
        Some(&prefix)
    ));
    assert!(!filesystem_path_allowed(
        &cp("/home/me/src/hc-v2/crates"),
        &caller,
        &prefix
    ));
    assert!(filesystem_path_allowed(
        &cp("/home/me/src/hc-v2"),
        &caller,
        &prefix
    ));
}

#[test]
fn hidden_components_need_an_explicit_dot_prefix() {
    let caller = cp("/home/me");
    let without_dot = bound("/home/me/src", "");
    let with_dot = bound("/home/me/src", ".g");
    assert!(!semantic_path_allowed(
        &cp("/home/me/src/.git"),
        &caller,
        Some(&without_dot)
    ));
    assert!(semantic_path_allowed(
        &cp("/home/me/src/.git"),
        &caller,
        Some(&with_dot)
    ));
    assert!(!semantic_path_allowed(
        &cp("/home/me/src/lib/.hidden"),
        &caller,
        Some(&without_dot)
    ));
    let typed_hidden_parent = bound("/home/me/src/.hidden", "a");
    assert!(semantic_path_allowed(
        &cp("/home/me/src/.hidden/api"),
        &caller,
        Some(&typed_hidden_parent)
    ));
}

#[test]
fn prefix_directory_itself_matches_only_with_empty_remaining() {
    let caller = cp("/home/me");
    assert!(semantic_path_allowed(
        &cp("/home/me/src"),
        &caller,
        Some(&bound("/home/me/src", ""))
    ));
    assert!(!semantic_path_allowed(
        &cp("/home/me/src"),
        &caller,
        Some(&bound("/home/me/src", "h"))
    ));
    assert!(!filesystem_path_allowed(
        &cp("/home/me/src"),
        &caller,
        &bound("/home/me/src", "")
    ));
}

#[test]
fn zero_semantic_candidates_fall_back_even_with_filesystem_paths() {
    assert!(merge_candidates(vec![], vec![cp("/tmp/dir")], &cp("/cwd")).is_none());
}

#[test]
fn ceiling_rejects_the_whole_set() {
    let semantic: Vec<(CanonicalPath, Evidence)> = (0..=CANDIDATE_CEILING).map(|index| {
        (
            cp(&format!("/repo/{index}")),
            Evidence::WorkspaceRoot {
                workspace_id: WorkspaceId::new(&format!("w{index}")),
                label: format!("w{index}"),
                number: index + 1,
                is_current: false,
            },
        )
    }).collect();
    assert!(merge_candidates(semantic, vec![], &cp("/cwd")).is_none());
}

#[test]
fn session_evidence_includes_out_of_root_panes_and_skips_invalid_cwd() {
    let session = Session {
        focused_workspace_id: Some(WorkspaceId::new("w1")),
        workspaces: vec![workspace(
            "w1",
            "repo",
            1,
            Some("/repo"),
            vec![tab(
                "t1",
                vec![
                    pane("p1", Some("/repo"), Occupant::Shell(None)),
                    pane(
                        "p2",
                        Some("/outside"),
                        Occupant::Agent(AgentStatus::Working),
                    ),
                    pane("p3", None, Occupant::Agent(AgentStatus::Idle)),
                ],
            )],
        )],
    };
    let evidence = session_evidence(&session, &WorkspaceId::new("w1"), &TabId::new("t1"));
    let paths: Vec<_> = evidence.iter().map(|(path, _)| path.as_str()).collect();
    assert_eq!(paths, ["/repo", "/repo", "/outside"]);
    assert!(matches!(
        evidence[2].1,
        Evidence::Pane {
            occupant: OccupantKind::Agent(AgentStatus::Working),
            is_current_tab: true,
            ..
        }
    ));
}

#[test]
fn filesystem_only_description_is_directory() {
    let semantic = vec![(
        cp("/tmp/dir"),
        Evidence::Pane {
            workspace_id: WorkspaceId::new("w1"),
            tab_id: TabId::new("t1"),
            occupant: OccupantKind::Shell,
            label: "tmp".into(),
            number: 1,
            is_current_workspace: false,
            is_current_tab: false,
        },
    )];
    let merged = merge_candidates(semantic, vec![cp("/tmp/other")], &cp("/cwd")).unwrap();
    let other = candidate_at(&merged, "/tmp/other");
    assert_eq!(other.description.source, SourceLabel::Directory);
    assert_eq!(other.description.scope, ScopeLabel::Unscoped);
}
