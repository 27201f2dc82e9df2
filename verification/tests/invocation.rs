use nu_plugin_herdr_navigate_directory::command::{Failure, LabeledErrorData};
use nu_plugin_herdr_navigate_directory::config::{read_command_config, CommandConfig, ConfigValue};
use nu_plugin_herdr_navigate_directory::error::{Error, RunError, Span};
use nu_plugin_herdr_navigate_directory::invocation::{Invocation, InvocationEvent, InvocationRequest, InvocationStep};
use nu_plugin_herdr_navigate_directory::orchestrate::{Halt, Outcome};
use nu_plugin_herdr_navigate_directory::path::{CanonicalPath, ResolvedPaths};
use nu_plugin_herdr_navigate_directory::types::{AgentIdlePolicy, AgentStatus};

const CWD: &str = "/fs/repo";
const TARGET: &str = "/fs/repo/target";

fn cp(path: &str) -> CanonicalPath {
    CanonicalPath::parse(path).unwrap()
}

fn go() -> Halt {
    Halt { interrupted: false, expired: false }
}

fn expired() -> Halt {
    Halt { interrupted: false, expired: true }
}

fn interrupted() -> Halt {
    Halt { interrupted: true, expired: false }
}

fn head() -> Span {
    Span::new(1, 4)
}

fn path_span() -> Span {
    Span::new(10, 20)
}

fn paths() -> ResolvedPaths {
    ResolvedPaths { caller_cwd: cp(CWD), target: cp(TARGET) }
}

fn start() -> Invocation {
    let (invocation, step) = Invocation::begin(head(), path_span(), "linux", go());
    assert!(matches!(step, InvocationStep::Perform(InvocationRequest::Resolve)));
    invocation
}

fn labeled(step: InvocationStep) -> LabeledErrorData {
    match step {
        InvocationStep::Return(Err(Failure::Labeled(l))) => l,
        other => panic!("expected a labeled error, got {other:?}"),
    }
}

fn step(invocation: &mut Invocation, event: InvocationEvent, halt: Halt) -> InvocationStep {
    assert!(invocation.accepts(&event));
    invocation.resume(event, halt)
}

/// Resolve outside Herdr and return the orchestration request.
fn orchestrating_outside() -> Invocation {
    let mut invocation = start();
    let next = step(&mut invocation, InvocationEvent::Resolved { paths: paths(), inside: false }, go());
    assert!(matches!(next, InvocationStep::Perform(InvocationRequest::Orchestrate { inside: false, .. })));
    invocation
}

#[test]
fn outside_herdr_never_reads_or_validates_plugin_configuration() {
    let mut invocation = start();
    let mut config_reads = 0;
    let mut next = step(&mut invocation, InvocationEvent::Resolved { paths: paths(), inside: false }, go());
    loop {
        next = match next {
            InvocationStep::Perform(InvocationRequest::ReadConfig) => {
                config_reads += 1;
                invocation.resume(InvocationEvent::ConfigFailed(read_command_config(Err(Error::invalid_configuration("unreadable".into())), head()).unwrap_err()), go())
            },
            InvocationStep::Perform(InvocationRequest::Orchestrate { paths, inside, policy }) => {
                assert!(!inside);
                assert_eq!(policy, AgentIdlePolicy::default_policy());
                invocation.resume(InvocationEvent::Orchestrated(Ok(Outcome::ChangeDirectory { path: paths.target })), go())
            },
            InvocationStep::Perform(InvocationRequest::WriteHistory { .. }) => invocation.resume(InvocationEvent::Written, go()),
            InvocationStep::Perform(InvocationRequest::Resolve) => panic!("resolved twice"),
            InvocationStep::Return(result) => {
                assert_eq!(result, Ok(()));
                break;
            },
        };
    }
    assert_eq!(config_reads, 0);
}

#[test]
fn path_and_herdr_context_errors_precede_invalid_configuration() {
    let mut invocation = start();
    let error = labeled(step(&mut invocation, InvocationEvent::ResolveFailed(Error::invalid_path("path does not exist".into())), go()));
    assert_eq!(error.code, "herdr_navigate_directory::invalid_path");
    assert_eq!(error.span, path_span());
    assert!(!invocation.accepts(&InvocationEvent::Written));

    let mut invocation = start();
    let error = labeled(step(
        &mut invocation,
        InvocationEvent::ResolveFailed(Error::invalid_herdr_context("HERDR_SOCKET_PATH is missing from the Herdr caller context".into())),
        go(),
    ));
    assert_eq!(error.code, "herdr_navigate_directory::invalid_herdr_context");
    assert_eq!(error.span, head());
}

#[test]
fn invalid_inside_configuration_is_read_once_and_uses_its_own_span() {
    let config_span = Span::new(40, 50);
    let mut invocation = start();
    let next = step(&mut invocation, InvocationEvent::Resolved { paths: paths(), inside: true }, go());
    assert!(matches!(next, InvocationStep::Perform(InvocationRequest::ReadConfig)));
    let invalid = read_command_config(Ok(Some(ConfigValue::Other { span: config_span })), head()).unwrap_err();
    let error = labeled(step(&mut invocation, InvocationEvent::ConfigFailed(invalid), go()));
    assert_eq!(error.code, "herdr_navigate_directory::invalid_configuration");
    assert_eq!(error.span, config_span);
    assert!(!invocation.accepts(&InvocationEvent::ConfigFailed(read_command_config(Err(Error::invalid_configuration("x".into())), head()).unwrap_err())));

    let mut unreadable = start();
    step(&mut unreadable, InvocationEvent::Resolved { paths: paths(), inside: true }, go());
    let lookup = read_command_config(Err(Error::invalid_herdr_context("lookup failed".into())), head()).unwrap_err();
    let error = labeled(step(&mut unreadable, InvocationEvent::ConfigFailed(lookup), go()));
    assert_eq!(error.code, "herdr_navigate_directory::invalid_configuration");
    assert_eq!(error.span, head());
}

#[test]
fn configured_policy_is_handed_to_the_orchestration_inside_herdr() {
    let mut invocation = start();
    step(&mut invocation, InvocationEvent::Resolved { paths: paths(), inside: true }, go());
    let policy = AgentIdlePolicy::from_statuses(&[AgentStatus::Idle]);
    let config = CommandConfig { dynamic_completion: false, idle_agent_policy: policy };
    match step(&mut invocation, InvocationEvent::Configured(config), go()) {
        InvocationStep::Perform(InvocationRequest::Orchestrate { paths: p, inside, policy: handed }) => {
            assert!(inside);
            assert_eq!(handed, policy);
            assert_eq!(p, paths());
        },
        other => panic!("expected orchestration, got {other:?}"),
    }
}

#[test]
fn config_lookup_honors_total_deadline_and_interruption() {
    let mut timeout = start();
    step(&mut timeout, InvocationEvent::Resolved { paths: paths(), inside: true }, go());
    let error = labeled(step(&mut timeout, InvocationEvent::Halted, expired()));
    assert_eq!(error.code, "herdr_navigate_directory::herdr_timeout");

    let mut interrupt = start();
    step(&mut interrupt, InvocationEvent::Resolved { paths: paths(), inside: true }, go());
    let result = step(&mut interrupt, InvocationEvent::Halted, interrupted());
    assert!(matches!(result, InvocationStep::Return(Err(Failure::Interrupted { span })) if span == head()));

    let mut late = start();
    step(&mut late, InvocationEvent::Resolved { paths: paths(), inside: true }, go());
    let config = CommandConfig { dynamic_completion: false, idle_agent_policy: AgentIdlePolicy::default_policy() };
    let error = labeled(step(&mut late, InvocationEvent::Configured(config), expired()));
    assert_eq!(error.code, "herdr_navigate_directory::herdr_timeout");
}

#[test]
fn total_deadline_is_a_hard_maximum_for_blocking_lookup() {
    let (_, next) = Invocation::begin(head(), path_span(), "linux", expired());
    let error = labeled(next);
    assert_eq!(error.code, "herdr_navigate_directory::herdr_timeout");
    assert_eq!(error.span, head());

    let mut slow = start();
    let error = labeled(step(&mut slow, InvocationEvent::Halted, expired()));
    assert_eq!(error.code, "herdr_navigate_directory::herdr_timeout");

    let mut blocked = start();
    let result = step(&mut blocked, InvocationEvent::Halted, interrupted());
    assert!(matches!(result, InvocationStep::Return(Err(Failure::Interrupted { .. }))));

    let mut after_lookup = start();
    let error = labeled(step(&mut after_lookup, InvocationEvent::Resolved { paths: paths(), inside: false }, expired()));
    assert_eq!(error.code, "herdr_navigate_directory::herdr_timeout");
}

#[test]
fn unsupported_platform_is_reported_at_the_head() {
    let (_, next) = Invocation::begin(head(), path_span(), "windows", go());
    let error = labeled(next);
    assert_eq!(error.code, "herdr_navigate_directory::unsupported_platform");
    assert_eq!(error.message, "hnd supports Linux and macOS only");
    assert_eq!(error.span, head());
    let (_, next) = Invocation::begin(head(), path_span(), "macos", go());
    assert!(matches!(next, InvocationStep::Perform(InvocationRequest::Resolve)));
}

#[test]
fn halted_change_directory_does_not_late_write_history() {
    let mut invocation = orchestrating_outside();
    let next = step(&mut invocation, InvocationEvent::Orchestrated(Ok(Outcome::ChangeDirectory { path: cp(TARGET) })), expired());
    let error = labeled(next);
    assert_eq!(error.code, "herdr_navigate_directory::herdr_timeout");
    assert!(!invocation.accepts(&InvocationEvent::Written));
}

#[test]
fn history_writes_are_one_ordered_critical_section_with_disclosed_partial_failure() {
    let mut invocation = orchestrating_outside();
    match step(&mut invocation, InvocationEvent::Orchestrated(Ok(Outcome::ChangeDirectory { path: cp(TARGET) })), go()) {
        InvocationStep::Perform(InvocationRequest::WriteHistory { updates }) => assert_eq!(
            updates,
            vec![("OLDPWD".to_string(), CWD.to_string()), ("PWD".to_string(), TARGET.to_string())]
        ),
        other => panic!("expected history writes, got {other:?}"),
    }
    assert!(matches!(step(&mut invocation, InvocationEvent::Written, go()), InvocationStep::Return(Ok(()))));

    let mut oldpwd_failure = orchestrating_outside();
    step(&mut oldpwd_failure, InvocationEvent::Orchestrated(Ok(Outcome::ChangeDirectory { path: cp(TARGET) })), go());
    let error = labeled(step(
        &mut oldpwd_failure,
        InvocationEvent::WriteFailed { index: 0, error: Error::invalid_path("failed to update the caller working directory".into()) },
        go(),
    ));
    assert_eq!(error.message, "failed to update the caller working directory");
    assert!(!error.message.contains("OLDPWD may already have changed"));

    let mut pwd_failure = orchestrating_outside();
    step(&mut pwd_failure, InvocationEvent::Orchestrated(Ok(Outcome::ChangeDirectory { path: cp(TARGET) })), go());
    let error = labeled(step(
        &mut pwd_failure,
        InvocationEvent::WriteFailed { index: 1, error: Error::invalid_path("failed to update the caller working directory".into()) },
        go(),
    ));
    assert!(error.message.contains("OLDPWD may already have changed"));
    assert_eq!(error.code, "herdr_navigate_directory::invalid_path");
    assert_eq!(error.span, path_span());
}

#[test]
fn silent_outcome_returns_nothing_without_history() {
    let mut invocation = orchestrating_outside();
    let next = step(&mut invocation, InvocationEvent::Orchestrated(Ok(Outcome::Silent)), go());
    assert!(matches!(next, InvocationStep::Return(Ok(()))));
    let mut failed = orchestrating_outside();
    let error = labeled(step(
        &mut failed,
        InvocationEvent::Orchestrated(Err(RunError::Failed(Error::herdr_action("denied".into())))),
        go(),
    ));
    assert_eq!(error.code, "herdr_navigate_directory::herdr_action");
    assert_eq!(error.span, head());
}
