use nu_plugin_herdr_navigate_directory::error::{Error, ErrorKind, RunError};
use nu_plugin_herdr_navigate_directory::herdr::create::{
    ambiguous_after_dispatch, create_tab, create_workspace, is_undispatched_start_failure, keep_or_mark_partial, require_id, tab_create_args,
    validate_tab, validate_workspace, workspace_create_args, CreatedPaneIdentity, CreatedTabBody, CreatedTabIdentity, CreatedWorkspaceBody,
    CreatedWorkspaceIdentity, CREATE_TIMEOUT_SECS, START_FAILED,
};
use nu_plugin_herdr_navigate_directory::herdr::protocol::{CliOutput, CommandResult, Envelope, ErrorBody, Fields, TaggedResult};
use nu_plugin_herdr_navigate_directory::path::CanonicalPath;
use nu_plugin_herdr_navigate_directory::types::WorkspaceId;

fn success() -> CliOutput {
    CliOutput { stdout: b"{}".to_vec(), stderr: Vec::new(), success: true, code: Some(0) }
}

fn failure() -> CliOutput {
    CliOutput { stdout: Vec::new(), stderr: b"{}".to_vec(), success: false, code: Some(1) }
}

fn tab_body(tab_ws: &str, root_ws: &str, root_tab: &str) -> CreatedTabBody {
    CreatedTabBody {
        tab: CreatedTabIdentity { tab_id: "w1:t2".into(), workspace_id: tab_ws.into() },
        root_pane: CreatedPaneIdentity { pane_id: "w1:p3".into(), workspace_id: root_ws.into(), tab_id: root_tab.into() },
    }
}

fn workspace_body(root_tab: &str) -> CreatedWorkspaceBody {
    CreatedWorkspaceBody {
        workspace: CreatedWorkspaceIdentity { workspace_id: "w2".into() },
        tab: CreatedTabIdentity { tab_id: "w2:t1".into(), workspace_id: "w2".into() },
        root_pane: CreatedPaneIdentity { pane_id: "w2:p1".into(), workspace_id: "w2".into(), tab_id: root_tab.into() },
    }
}

fn ok<T>(kind: &str, body: T) -> Option<Envelope<T>> {
    Some(Envelope { id: Some("x".into()), result: Some(TaggedResult { kind: kind.into(), fields: Fields::Decoded(body) }), error: None })
}

fn err<T>(code: &str, message: &str) -> Option<Envelope<T>> {
    Some(Envelope { id: Some("x".into()), result: None, error: Some(ErrorBody { code: code.into(), message: Some(message.into()) }) })
}

fn failed(e: RunError) -> Error {
    match e {
        RunError::Failed(error) => error,
        RunError::Interrupted => panic!("unexpected interrupt"),
    }
}

#[test]
fn creation_timeout_is_five_seconds() {
    assert_eq!(CREATE_TIMEOUT_SECS, 5);
}

#[test]
fn tab_create_uses_exact_argv_focus_and_omits_labels() {
    let cwd = CanonicalPath::parse("/work/my repo").unwrap();
    let argv = tab_create_args(&WorkspaceId::new("w1"), &cwd).join(" ");
    assert_eq!(argv, format!("tab create --workspace w1 --cwd {} --focus", cwd.as_str()));
    assert!(!argv.contains("--label"));
    assert!(!argv.contains("close"));
    assert!(!argv.contains("send-"));

    let created = create_tab(Ok(success()), ok("tab_created", tab_body("w1", "w1", "w1:t2")), &WorkspaceId::new("w1")).unwrap();
    let CommandResult::Completed(created) = created else {
        panic!("expected created tab");
    };
    assert_eq!(created.tab_id.as_str(), "w1:t2");
    assert_eq!(created.pane_id.as_str(), "w1:p3");
}

#[test]
fn workspace_create_uses_exact_argv_focus_and_omits_labels() {
    let cwd = CanonicalPath::parse("/work/repo").unwrap();
    let argv = workspace_create_args(&cwd).join(" ");
    assert_eq!(argv, "workspace create --cwd /work/repo --focus");
    assert!(!argv.contains("--label"));
    assert!(!argv.contains("close"));

    let CommandResult::Completed(created) = create_workspace(Ok(success()), ok("workspace_created", workspace_body("w2:t1"))).unwrap() else {
        panic!("expected created workspace");
    };
    assert_eq!(created.workspace_id.as_str(), "w2");
    assert_eq!(created.tab_id.as_str(), "w2:t1");
    assert_eq!(created.pane_id.as_str(), "w2:p1");
}

#[test]
fn timeout_and_invalid_success_are_ambiguous_and_never_rolled_back() {
    let timeout = RunError::Failed(Error::herdr_timeout("tab creation timed out".into()));
    let error = failed(create_tab(Err(timeout), None, &WorkspaceId::new("w1")).unwrap_err());
    assert_eq!(error.kind(), ErrorKind::HerdrTimeout);
    assert!(error.message().contains("partially completed"));
    assert!(error.message().contains("not rolled back"));

    let missing: Option<Envelope<CreatedTabBody>> =
        Some(Envelope { id: Some("x".into()), result: Some(TaggedResult { kind: "tab_created".into(), fields: Fields::Invalid }), error: None });
    let error = failed(create_tab(Ok(success()), missing, &WorkspaceId::new("w1")).unwrap_err());
    assert_eq!(error.kind(), ErrorKind::HerdrProtocol);
    assert!(error.message().contains("partially completed"));
    assert!(error.message().contains("not rolled back"));
}

#[test]
fn start_failure_is_not_reported_as_partial() {
    let start = RunError::Failed(Error::herdr_transport(START_FAILED.into()));
    let error = failed(create_tab(Err(start), None, &WorkspaceId::new("w1")).unwrap_err());
    assert_eq!(error.kind(), ErrorKind::HerdrTransport);
    assert!(!error.message().contains("partially completed"));
    assert!(is_undispatched_start_failure(&Error::herdr_transport(START_FAILED.into())));
    assert!(!is_undispatched_start_failure(&Error::herdr_protocol(START_FAILED.into())));
}

#[test]
fn herdr_action_rejection_is_not_partial() {
    let error = failed(create_tab(Ok(failure()), err("tab_create_failed", "denied"), &WorkspaceId::new("w1")).unwrap_err());
    assert_eq!(error.kind(), ErrorKind::HerdrAction);
    assert!(!error.message().contains("partially completed"));
    assert_eq!(error.message(), "tab creation failed (tab_create_failed: denied)");
}

#[test]
fn mismatched_create_identities_are_protocol_errors() {
    let cases = [
        (create_tab(Ok(success()), ok("tab_created", tab_body("w1", "w1", "w1:t9")), &WorkspaceId::new("w1")).map(|_| ()), "root pane tab does not match"),
        (create_tab(Ok(success()), ok("tab_created", tab_body("w1", "w9", "w1:t2")), &WorkspaceId::new("w1")).map(|_| ()), "root pane workspace does not match"),
        (create_workspace(Ok(success()), ok("workspace_created", workspace_body("w2:t9"))).map(|_| ()), "root pane tab does not match"),
    ];
    for (result, detail) in cases {
        let error = failed(result.unwrap_err());
        assert_eq!(error.kind(), ErrorKind::HerdrProtocol);
        assert!(error.message().contains(detail), "{}", error.message());
        assert!(error.message().contains("partially completed"));
    }
}

#[test]
fn workspace_not_found_is_typed() {
    let result = create_tab(Ok(failure()), err("workspace_not_found", "workspace w9 not found"), &WorkspaceId::new("w9")).unwrap();
    let CommandResult::NotFound { code, .. } = result else {
        panic!("expected not found");
    };
    assert_eq!(code, "workspace_not_found");
}

#[test]
fn interruption_is_never_marked_partial() {
    assert_eq!(create_tab(Err(RunError::Interrupted), None, &WorkspaceId::new("w1")).unwrap_err(), RunError::Interrupted);
    assert_eq!(ambiguous_after_dispatch("op", RunError::Interrupted), RunError::Interrupted);
    assert_eq!(
        keep_or_mark_partial("op", RunError::Failed(Error::herdr_action("no".into()))),
        RunError::Failed(Error::herdr_action("no".into()))
    );
    assert_eq!(
        keep_or_mark_partial("op", RunError::Failed(Error::herdr_protocol("bad".into()))),
        RunError::Failed(Error::herdr_protocol("bad; op may have partially completed and was not rolled back".into()))
    );
}

#[test]
fn create_identities_are_validated_in_order() {
    let mut body = tab_body("w1", "w1", "w1:t2");
    body.tab.tab_id = String::new();
    assert_eq!(validate_tab(body, "w1").unwrap_err().message(), "tab creation: missing created tab id");
    assert_eq!(
        validate_tab(tab_body("w9", "w1", "w1:t2"), "w1").unwrap_err().message(),
        "tab creation: created tab workspace does not match the request"
    );
    let mut ws = workspace_body("w2:t1");
    ws.root_pane.workspace_id = String::new();
    assert_eq!(validate_workspace(ws).unwrap_err().message(), "workspace creation: missing created root pane workspace id");
    let mut ws = workspace_body("w2:t1");
    ws.tab.workspace_id = "w3".into();
    assert_eq!(validate_workspace(ws).unwrap_err().message(), "workspace creation: created tab workspace does not match the workspace");
    assert!(require_id("op", "f", "id").is_ok());
    assert_eq!(require_id("op", "f", "").unwrap_err().message(), "op: missing created f id");
}
