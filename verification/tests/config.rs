use nu_plugin_herdr_navigate_directory::config::{
    dynamic_completion_enabled, parse_plugin_config, read_command_config, ConfigField, ConfigItem, ConfigValue,
};
use nu_plugin_herdr_navigate_directory::error::{Error, ErrorKind, Span};
use nu_plugin_herdr_navigate_directory::types::AgentStatus;

fn sp(start: usize) -> Span {
    Span::new(start, start + 1)
}

fn record(fields: Vec<(&str, ConfigField)>, span: Span) -> ConfigValue {
    ConfigValue::Record { fields: fields.into_iter().map(|(k, v)| (k.to_string(), v)).collect(), span }
}

fn config_with_statuses(statuses: Vec<ConfigItem>) -> ConfigValue {
    record(vec![("idle_agent_statuses", ConfigField::List { items: statuses, span: sp(20) })], sp(10))
}

#[test]
fn missing_config_and_missing_status_key_use_backward_compatible_defaults() {
    for config in [None, Some(record(vec![], sp(10)))] {
        let parsed = parse_plugin_config(config.as_ref()).unwrap();
        assert!(parsed.idle_agent_policy.allows(AgentStatus::Idle));
        assert!(parsed.idle_agent_policy.allows(AgentStatus::Done));
        assert!(!parsed.idle_agent_policy.allows(AgentStatus::Blocked));
        assert!(!parsed.idle_agent_policy.allows(AgentStatus::Working));
        assert!(!parsed.idle_agent_policy.allows(AgentStatus::Unknown));
        assert!(!parsed.dynamic_completion);
    }
}

#[test]
fn accepted_statuses_have_set_semantics_and_empty_is_valid() {
    let cases = [
        (vec![], vec![]),
        (vec!["idle"], vec![AgentStatus::Idle]),
        (vec!["done"], vec![AgentStatus::Done]),
        (vec!["blocked"], vec![AgentStatus::Blocked]),
        (vec!["working"], vec![AgentStatus::Working]),
        (
            vec!["working", "idle", "working", "done", "blocked"],
            vec![AgentStatus::Idle, AgentStatus::Done, AgentStatus::Blocked, AgentStatus::Working],
        ),
    ];
    for (configured, expected) in cases {
        let value = config_with_statuses(
            configured.iter().copied().map(|status| ConfigItem::String { val: status.to_string(), span: sp(30) }).collect(),
        );
        let parsed = parse_plugin_config(Some(&value)).unwrap();
        for status in [AgentStatus::Idle, AgentStatus::Done, AgentStatus::Blocked, AgentStatus::Working] {
            assert_eq!(
                parsed.idle_agent_policy.allows(status),
                expected.contains(&status),
                "unexpected membership for {status:?} in {configured:?}"
            );
        }
        assert!(!parsed.idle_agent_policy.allows(AgentStatus::Unknown));
    }
}

#[test]
fn only_boolean_true_enables_dynamic_completion_without_affecting_validation() {
    let cases = [
        (None, false),
        (Some(ConfigField::Bool { val: false, span: sp(30) }), false),
        (Some(ConfigField::Other { span: sp(30) }), false),
        (Some(ConfigField::List { items: vec![], span: sp(30) }), false),
        (Some(ConfigField::Bool { val: true, span: sp(30) }), true),
    ];
    for (value, expected) in cases {
        let config = value.map(|value| record(vec![("dynamic_completion", value)], sp(10)));
        let parsed = parse_plugin_config(config.as_ref()).unwrap();
        assert_eq!(parsed.dynamic_completion, expected);
        assert_eq!(dynamic_completion_enabled(&Ok(config)), expected);
    }
}

#[test]
fn malformed_values_report_the_most_specific_span() {
    let cases = [
        (ConfigValue::Other { span: sp(1) }, sp(1)),
        (record(vec![("idle_agent_statuses", ConfigField::Other { span: sp(2) })], sp(10)), sp(2)),
        (config_with_statuses(vec![ConfigItem::Other { span: sp(3) }]), sp(3)),
    ];
    for (value, expected_span) in cases {
        let error = parse_plugin_config(Some(&value)).unwrap_err();
        assert_eq!(error.error.kind(), ErrorKind::InvalidConfiguration);
        assert_eq!(error.span, expected_span);
    }
}

#[test]
fn unsupported_status_spellings_are_rejected_at_the_member_span() {
    for status in ["unknown", "busy", "Idle", "DONE", " idle", "done "] {
        let member_span = sp(40);
        let value = config_with_statuses(vec![ConfigItem::String { val: status.to_string(), span: member_span }]);
        let error = parse_plugin_config(Some(&value)).unwrap_err();
        assert_eq!(error.error.kind(), ErrorKind::InvalidConfiguration);
        assert_eq!(error.span, member_span, "{status}");
        assert_eq!(error.error.message(), format!("unsupported idle agent status: {status}"));
    }
}

#[test]
fn unknown_keys_are_rejected_at_the_record_span() {
    for key in ["other", "idle_agent_status", "Dynamic_completion"] {
        let record_span = sp(50);
        let value = record(vec![(key, ConfigField::Other { span: sp(51) })], record_span);
        let error = parse_plugin_config(Some(&value)).unwrap_err();
        assert_eq!(error.error.kind(), ErrorKind::InvalidConfiguration);
        assert_eq!(error.span, record_span, "{key}");
        assert_eq!(error.error.message(), format!("unknown plugin configuration key: {key}"));
    }
}

#[test]
fn config_is_strict_and_disabled_by_default() {
    assert!(!dynamic_completion_enabled(&Ok(None)));
    assert!(!dynamic_completion_enabled(&Err(Error::invalid_configuration("unavailable".into()))));
    assert!(!dynamic_completion_enabled(&Ok(Some(ConfigValue::Other { span: sp(1) }))));
    let enabled = record(vec![("dynamic_completion", ConfigField::Bool { val: true, span: sp(2) })], sp(1));
    assert!(dynamic_completion_enabled(&Ok(Some(enabled))));
}

#[test]
fn unavailable_configuration_is_invalid_at_the_command_head() {
    let head = Span::new(1, 4);
    let error = read_command_config(Err(Error::invalid_configuration("engine".into())), head).unwrap_err();
    assert_eq!(error.error.kind(), ErrorKind::InvalidConfiguration);
    assert_eq!(error.error.message(), "plugin configuration is unavailable");
    assert_eq!(error.span, head);
    assert!(read_command_config(Ok(None), head).unwrap().idle_agent_policy.allows(AgentStatus::Done));
}

#[test]
fn first_occurrence_of_a_key_wins_and_first_bad_member_is_reported() {
    let value = record(
        vec![
            ("dynamic_completion", ConfigField::Bool { val: true, span: sp(2) }),
            ("dynamic_completion", ConfigField::Bool { val: false, span: sp(3) }),
        ],
        sp(1),
    );
    assert!(parse_plugin_config(Some(&value)).unwrap().dynamic_completion);
    let value = config_with_statuses(vec![
        ConfigItem::String { val: "idle".into(), span: sp(5) },
        ConfigItem::String { val: "bad".into(), span: sp(6) },
        ConfigItem::Other { span: sp(7) },
    ]);
    assert_eq!(parse_plugin_config(Some(&value)).unwrap_err().span, sp(6));
    let bool_list = record(vec![("idle_agent_statuses", ConfigField::Bool { val: true, span: sp(8) })], sp(1));
    let error = parse_plugin_config(Some(&bool_list)).unwrap_err();
    assert_eq!(error.error.message(), "idle_agent_statuses must be a list");
    assert_eq!(error.span, sp(8));
}

