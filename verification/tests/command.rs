use nu_plugin_herdr_navigate_directory::command::{
    decode_target_request, labeled_error, labeled_error_at, map_run_error_parts, not_implemented, optional_absolute_path_env, plan_target,
    platform_is_supported, read_herdr_mode, read_home, required_absolute_path_env, Failure, HerdrCdPlugin, HerdrNavigateDirectoryPlugin,
    TargetPlan, TargetRequest, COMMAND_NAME, HCD_COMMAND_NAME, PLUGIN_IDENTITY, PLUGIN_VERSION,
};
use nu_plugin_herdr_navigate_directory::error::{Error, ErrorKind, RunError, Span};
use nu_plugin_herdr_navigate_directory::herdr::context::{classify_herdr_env, EnvValue, HerdrMode};

fn s(v: &str) -> Option<EnvValue> {
    Some(EnvValue::String(v.to_string()))
}

#[test]
fn command_plugin_identity_and_version_match_the_package() {
    let plugin = HerdrCdPlugin;
    assert_eq!(plugin.version(), PLUGIN_VERSION);
    assert_eq!(plugin.command_names().len(), 1);
    assert_eq!(plugin.command_names()[0], HCD_COMMAND_NAME);
}

#[test]
fn mod_plugin_identity_and_version_match_the_package() {
    let plugin = HerdrNavigateDirectoryPlugin;
    assert_eq!(PLUGIN_IDENTITY, "herdr_navigate_directory");
    assert_eq!(plugin.version(), "0.2.0");
    assert_eq!(plugin.command_names().len(), 1);
    assert_eq!(plugin.command_names()[0], COMMAND_NAME);
}

#[test]
fn compiled_binary_name_matches_plugin_identity() {
    let file_name = format!("nu_plugin_{PLUGIN_IDENTITY}");
    assert!(file_name.starts_with("nu_plugin_herdr_navigate_directory"), "unexpected plugin binary name: {file_name}");
}

#[test]
fn hcd_command_name_is_stable() {
    assert_eq!(HCD_COMMAND_NAME, "hcd");
}

#[test]
fn hnd_command_name_is_stable() {
    assert_eq!(COMMAND_NAME, "hnd");
}

#[test]
fn hcd_reports_not_implemented_without_navigation() {
    let span = Span::new(0, 0);
    let (msg, help, at) = not_implemented(span);
    assert_eq!(msg, "hcd is not implemented yet");
    assert_eq!(help, "navigation behavior will be added in later phases");
    assert_eq!(at, span);
}

#[test]
fn current_platform_is_supported() {
    assert!(platform_is_supported("linux"));
    assert!(platform_is_supported("macos"));
    assert!(!platform_is_supported("windows"));
}

#[test]
fn labeled_error_uses_internal_kind_codes() {
    let error = labeled_error_at(&Error::invalid_path("path is not a directory".into()), Span::new(0, 0));
    assert_eq!(error.code, "herdr_navigate_directory::invalid_path");
    assert_eq!(error.message, "path is not a directory");
    assert_eq!(error.label, "invalid_path");
}

#[test]
fn labeled_error_uses_internal_kind_codes_and_approved_spans() {
    let path_span = Span::new(10, 20);
    let head = Span::new(1, 4);

    let path_error = labeled_error(&Error::invalid_path("path is not a directory".into()), path_span, head);
    assert_eq!(path_error.code, "herdr_navigate_directory::invalid_path");
    assert_eq!(path_error.message, "path is not a directory");
    assert_eq!(path_error.label, "invalid_path");
    assert_eq!(path_error.span, path_span);

    let herdr_kinds = [
        Error::unsupported_platform("hnd supports Linux and macOS only".into()),
        Error::invalid_herdr_context("HERDR_SOCKET_PATH is missing from the Herdr caller context".into()),
        Error::incompatible_herdr("Herdr version or protocol is below the 0.8.2 baseline".into()),
        Error::herdr_timeout("hnd exceeded the 10-second deadline".into()),
        Error::herdr_transport("failed to start the Herdr command".into()),
        Error::herdr_protocol("session snapshot: missing snapshot object".into()),
        Error::herdr_action("pane focus failed after recomputation: pane_not_found: gone".into()),
    ];
    for error in herdr_kinds {
        let labeled = labeled_error(&error, path_span, head);
        let expected = format!("herdr_navigate_directory::{}", error.kind().to_string());
        assert_eq!(labeled.code, expected);
        assert_eq!(labeled.span, head, "{}", error.kind().as_str());
        assert_eq!(labeled.label, error.kind().as_str());
    }
}

#[test]
fn run_errors_map_to_interruption_or_labeled_errors() {
    let head = Span::new(1, 4);
    let path = Span::new(5, 9);
    assert_eq!(map_run_error_parts(RunError::Interrupted, path, head), Failure::Interrupted { span: head });
    let Failure::Labeled(l) = map_run_error_parts(RunError::Failed(Error::invalid_path("bad".into())), path, head) else {
        panic!("expected labeled error");
    };
    assert_eq!(l.span, path);
    assert_eq!(l.message, "bad");
}

#[test]
fn directory_argument_decodes_home_previous_and_explicit_requests() {
    assert_eq!(decode_target_request(Some("/tmp/project".into())), TargetRequest::Explicit("/tmp/project".into()));
    assert_eq!(decode_target_request(None), TargetRequest::Home);
    assert_eq!(decode_target_request(Some("-".into())), TargetRequest::Previous);
    assert_eq!(decode_target_request(Some("./-".into())), TargetRequest::Explicit("./-".into()));
    assert_eq!(decode_target_request(Some("--".into())), TargetRequest::Explicit("--".into()));
}

#[test]
fn environment_value_conversion_distinguishes_strings() {
    assert_eq!(read_home(s("/Users/example")), Some("/Users/example".to_string()));
    assert_eq!(read_home(Some(EnvValue::Other)), None);
    assert_eq!(read_home(s("")), None);
    assert_eq!(read_home(None), None);
}

#[test]
fn caller_herdr_env_uses_nushell_values_not_process_env() {
    assert!(!classify_herdr_env(None).unwrap());
    assert!(classify_herdr_env(s("1").as_ref()).unwrap());
    assert_eq!(classify_herdr_env(Some(&EnvValue::Other)).unwrap_err().kind(), ErrorKind::InvalidHerdrContext);
    assert_eq!(read_herdr_mode(None, &vec![], None).unwrap(), HerdrMode::Outside);
}

#[test]
fn target_requests_use_caller_home_previous_and_literal_dash_paths() {
    assert_eq!(
        plan_target(TargetRequest::Home, s("/Users/me"), None).unwrap(),
        TargetPlan::Lexical { target: "/Users/me".into(), home: None }
    );
    assert_eq!(
        plan_target(TargetRequest::Previous, None, s("/old")).unwrap(),
        TargetPlan::Lexical { target: "/old".into(), home: None }
    );
    assert_eq!(plan_target(TargetRequest::Previous, None, None).unwrap(), TargetPlan::CallerCwd);
    assert_eq!(
        plan_target(TargetRequest::Explicit("~/src".into()), s("/Users/me"), None).unwrap(),
        TargetPlan::Lexical { target: "~/src".into(), home: Some("/Users/me".into()) }
    );
    assert_eq!(
        plan_target(TargetRequest::Explicit("./-".into()), s("/Users/me"), None).unwrap(),
        TargetPlan::Lexical { target: "./-".into(), home: None }
    );
}

#[test]
fn implicit_and_previous_targets_fail_closed_with_their_approved_spans() {
    let missing = plan_target(TargetRequest::Home, None, None).unwrap_err();
    assert_eq!(missing.kind(), ErrorKind::InvalidPath);
    assert_eq!(missing.message(), "HOME is missing from the caller environment");
    assert_eq!(plan_target(TargetRequest::Home, s(""), None).unwrap_err().message(), "HOME must not be empty");
    assert_eq!(plan_target(TargetRequest::Home, s("rel"), None).unwrap_err().message(), "HOME must be an absolute path");
    assert_eq!(plan_target(TargetRequest::Home, Some(EnvValue::Other), None).unwrap_err().message(), "HOME must be a string");
    assert_eq!(plan_target(TargetRequest::Previous, None, s("rel")).unwrap_err().message(), "OLDPWD must be an absolute path");
    assert_eq!(optional_absolute_path_env("X", None).unwrap(), None);
    assert_eq!(required_absolute_path_env("X", s("/a")).unwrap(), "/a");
}

#[test]
fn inside_mode_requires_string_identity_values_in_order() {
    let vars = vec![
        ("HERDR_BIN_PATH".to_string(), EnvValue::String("/opt/herdr".into())),
        ("HERDR_SOCKET_PATH".to_string(), EnvValue::String("/tmp/h.sock".into())),
        ("HERDR_WORKSPACE_ID".to_string(), EnvValue::String("w1".into())),
        ("HERDR_TAB_ID".to_string(), EnvValue::String("w1:t1".into())),
        ("HERDR_PANE_ID".to_string(), EnvValue::String("w1:p1".into())),
        ("HERDR_SESSION".to_string(), EnvValue::String("s".into())),
        ("HERDR_ENV".to_string(), EnvValue::Other),
        ("PATH".to_string(), EnvValue::Other),
    ];
    let HerdrMode::Inside(ctx) = read_herdr_mode(s("1"), &vars, Some("/opt/real/herdr".into())).unwrap() else {
        panic!("expected inside mode");
    };
    assert_eq!(ctx.bin, "/opt/real/herdr");
    assert_eq!(ctx.pane_id, "w1:p1");
    assert!(!ctx.herdr_vars.iter().any(|(k, _)| k == "HERDR_SESSION"));

    let missing = read_herdr_mode(s("1"), &vars[1..].to_vec(), Some("/opt/herdr".into())).unwrap_err();
    assert_eq!(missing.message(), "HERDR_BIN_PATH is missing from the Herdr caller context");

    let mut bad = vars.clone();
    bad[2].1 = EnvValue::Other;
    let err = read_herdr_mode(s("1"), &bad, Some("/opt/herdr".into())).unwrap_err();
    assert_eq!(err.kind(), ErrorKind::InvalidHerdrContext);
    assert_eq!(err.message(), "HERDR_WORKSPACE_ID must be a string");

    let err = read_herdr_mode(s("1"), &vars, None).unwrap_err();
    assert_eq!(err.message(), "Herdr binary is missing, invalid, or not executable");
}
