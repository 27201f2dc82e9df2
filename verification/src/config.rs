//! Strict plugin-configuration parsing shared by execution and completion.

use vstd::prelude::*;

use crate::error::{Error, ErrorKind, ErrorView, Span};
use crate::text::{concat, str_equal};
use crate::types::{AgentIdlePolicy, AgentStatus};

verus! {

/// A member of a configured list.
#[derive(Debug, Clone, PartialEq, Eq)]
pub enum ConfigItem {
    String { val: String, span: Span },
    Other { span: Span },
}

/// The value of one configuration key.
#[derive(Debug, Clone, PartialEq, Eq)]
pub enum ConfigField {
    Bool { val: bool, span: Span },
    List { items: Vec<ConfigItem>, span: Span },
    Other { span: Span },
}

/// The plugin's configuration value: a record of keys, or anything else.
#[derive(Debug, Clone, PartialEq, Eq)]
pub enum ConfigValue {
    Record { fields: Vec<(String, ConfigField)>, span: Span },
    Other { span: Span },
}

/// Parsed configuration of the command.
#[derive(Debug, Clone, PartialEq, Eq)]
pub struct CommandConfig {
    pub dynamic_completion: bool,
    pub idle_agent_policy: AgentIdlePolicy,
}

/// An invalid configuration, with the span of the most specific value.
#[derive(Debug, Clone, PartialEq, Eq)]
pub struct ConfigurationError {
    pub error: Error,
    pub span: Span,
}

pub open spec fn config_error(message: Seq<char>) -> ErrorView {
    ErrorView { kind: ErrorKind::InvalidConfiguration, message }
}

pub open spec fn known_key(k: Seq<char>) -> bool {
    k == "dynamic_completion"@ || k == "idle_agent_statuses"@
}

/// `k` is the first record entry that satisfies `known`'s negation.
pub open spec fn first_unknown_at(fields: Seq<(String, ConfigField)>, k: int) -> bool {
    0 <= k < fields.len() && !known_key(fields[k].0@) && forall|j: int| 0 <= j < k ==> known_key(#[trigger] fields[j].0@)
}

/// `k` is the first record entry whose key is `key`.
pub open spec fn first_key_at(fields: Seq<(String, ConfigField)>, key: Seq<char>, k: int) -> bool {
    0 <= k < fields.len() && fields[k].0@ == key && forall|j: int| 0 <= j < k ==> (#[trigger] fields[j].0@) != key
}

/// The record's value for `key`, as a record lookup finds it.
pub open spec fn lookup(fields: Seq<(String, ConfigField)>, key: Seq<char>) -> Option<ConfigField> {
    if exists|k: int| first_key_at(fields, key, k) {
        Some(fields[choose|k: int| first_key_at(fields, key, k)].1)
    } else {
        None
    }
}

pub open spec fn status_of(s: Seq<char>) -> Option<AgentStatus> {
    if s == "idle"@ {
        Some(AgentStatus::Idle)
    } else if s == "done"@ {
        Some(AgentStatus::Done)
    } else if s == "blocked"@ {
        Some(AgentStatus::Blocked)
    } else if s == "working"@ {
        Some(AgentStatus::Working)
    } else {
        None
    }
}

/// The first invalid list member: not a string, or not one of the four
/// supported spellings.
pub open spec fn item_error(item: ConfigItem) -> Option<(ErrorView, Span)> {
    match item {
        ConfigItem::Other { span } => Some((config_error("idle_agent_statuses entries must be strings"@), span)),
        ConfigItem::String { val, span } => if status_of(val@) is None {
            Some((config_error("unsupported idle agent status: "@ + val@), span))
        } else {
            None
        },
    }
}

pub open spec fn item_status(item: ConfigItem) -> Option<AgentStatus> {
    match item {
        ConfigItem::String { val, .. } => status_of(val@),
        ConfigItem::Other { .. } => None,
    }
}

pub open spec fn first_bad_item_at(items: Seq<ConfigItem>, k: int) -> bool {
    0 <= k < items.len() && item_error(items[k]) is Some && forall|j: int| 0 <= j < k ==> item_error(#[trigger] items[j]) is None
}

pub open spec fn item_names(items: Seq<ConfigItem>, s: AgentStatus) -> bool {
    exists|k: int| 0 <= k < items.len() && item_status(#[trigger] items[k]) == Some(s)
}

/// Outcome of configuration parsing: the error with its span, or whether
/// dynamic completion is on and which agent statuses count as idle.
pub enum ConfigOutcome {
    Invalid(ErrorView, Span),
    Valid { dynamic_completion: bool, idle: spec_fn(AgentStatus) -> bool },
}

/// No configuration, or a record without the status key, means dynamic
/// completion off and `[idle done]`; only boolean `true` enables completion;
/// the statuses are a list of the four supported strings, with set
/// semantics.
pub open spec fn spec_parse_config(config: Option<ConfigValue>) -> ConfigOutcome {
    match config {
        None => ConfigOutcome::Valid { dynamic_completion: false, idle: |s: AgentStatus| s == AgentStatus::Idle || s == AgentStatus::Done },
        Some(ConfigValue::Other { span }) => ConfigOutcome::Invalid(config_error("plugin configuration must be a record"@), span),
        Some(ConfigValue::Record { fields, span }) => {
            let f = fields@;
            if exists|k: int| first_unknown_at(f, k) {
                let k = choose|k: int| first_unknown_at(f, k);
                ConfigOutcome::Invalid(config_error("unknown plugin configuration key: "@ + f[k].0@), span)
            } else {
                let dynamic = lookup(f, "dynamic_completion"@) matches Some(ConfigField::Bool { val: true, .. });
                match lookup(f, "idle_agent_statuses"@) {
                    None => ConfigOutcome::Valid { dynamic_completion: dynamic, idle: |s: AgentStatus| s == AgentStatus::Idle || s == AgentStatus::Done },
                    Some(ConfigField::List { items, .. }) => {
                        let it = items@;
                        if exists|k: int| first_bad_item_at(it, k) {
                            let k = choose|k: int| first_bad_item_at(it, k);
                            let bad = item_error(it[k])->0;
                            ConfigOutcome::Invalid(bad.0, bad.1)
                        } else {
                            ConfigOutcome::Valid { dynamic_completion: dynamic, idle: |s: AgentStatus| item_names(it, s) }
                        }
                    },
                    Some(ConfigField::Bool { span, .. }) => ConfigOutcome::Invalid(config_error("idle_agent_statuses must be a list"@), span),
                    Some(ConfigField::Other { span }) => ConfigOutcome::Invalid(config_error("idle_agent_statuses must be a list"@), span),
                }
            }
        },
    }
}

pub open spec fn opt_config(config: Option<&ConfigValue>) -> Option<ConfigValue> {
    match config {
        Some(c) => Some(*c),
        None => None,
    }
}

/// The result agrees with the parsing outcome.
pub open spec fn config_result_matches(r: Result<CommandConfig, ConfigurationError>, o: ConfigOutcome) -> bool {
    match r {
        Ok(c) => o matches ConfigOutcome::Valid { dynamic_completion, idle }
            && c.dynamic_completion == dynamic_completion
            && forall|s: AgentStatus| #[trigger] c.idle_agent_policy.permits(s) <==> (s != AgentStatus::Unknown && idle(s)),
        Err(e) => o matches ConfigOutcome::Invalid(err, span) && e.error@ == err && e.span == span,
    }
}

fn find_key(fields: &Vec<(String, ConfigField)>, key: &str) -> (r: Option<usize>)
    ensures
        r matches Some(k) ==> first_key_at(fields@, key@, k as int),
        r is None ==> forall|k: int| 0 <= k < fields@.len() ==> (#[trigger] fields@[k]).0@ != key@,
{
    let mut i: usize = 0;
    while i < fields.len()
        invariant
            i <= fields@.len(),
            forall|k: int| 0 <= k < i ==> (#[trigger] fields@[k]).0@ != key@,
        decreases fields@.len() - i,
    {
        if str_equal(fields[i].0.as_str(), key) {
            return Some(i);
        }
        i += 1;
    }
    None
}

proof fn lemma_lookup(fields: Seq<(String, ConfigField)>, key: Seq<char>, k: int)
    requires
        first_key_at(fields, key, k),
    ensures
        lookup(fields, key) == Some(fields[k].1),
{
    let c = choose|c: int| first_key_at(fields, key, c);
    if c < k {
        assert(fields[c].0@ == key);
    } else if k < c {
        assert(fields[k].0@ == key);
    }
}

proof fn lemma_lookup_none(fields: Seq<(String, ConfigField)>, key: Seq<char>)
    requires
        forall|k: int| 0 <= k < fields.len() ==> (#[trigger] fields[k]).0@ != key,
    ensures
        lookup(fields, key) is None,
{
    if exists|k: int| first_key_at(fields, key, k) {
        let k = choose|k: int| first_key_at(fields, key, k);
        assert(fields[k].0@ == key);
    }
}

fn parse_status(val: &str) -> (r: Option<AgentStatus>)
    ensures
        r == status_of(val@),
{
    if str_equal(val, "idle") {
        Some(AgentStatus::Idle)
    } else if str_equal(val, "done") {
        Some(AgentStatus::Done)
    } else if str_equal(val, "blocked") {
        Some(AgentStatus::Blocked)
    } else if str_equal(val, "working") {
        Some(AgentStatus::Working)
    } else {
        None
    }
}

fn parse_idle_agent_statuses(items: &Vec<ConfigItem>) -> (r: Result<AgentIdlePolicy, ConfigurationError>)
    ensures
        match r {
            Ok(p) => (forall|k: int| !first_bad_item_at(items@, k))
                && forall|s: AgentStatus| #[trigger] p.permits(s) <==> (s != AgentStatus::Unknown && item_names(items@, s)),
            Err(e) => exists|k: int| first_bad_item_at(items@, k) && item_error(items@[k]) == Some((e.error@, e.span)),
        },
{
    let mut statuses: Vec<AgentStatus> = Vec::new();
    let mut i: usize = 0;
    while i < items.len()
        invariant
            i <= items@.len(),
            forall|j: int| 0 <= j < i ==> item_error(#[trigger] items@[j]) is None,
            forall|s: AgentStatus| statuses@.contains(s) <==> exists|k: int| 0 <= k < i && item_status(#[trigger] items@[k]) == Some(s),
        decreases items@.len() - i,
    {
        match &items[i] {
            ConfigItem::Other { span } => {
                assert(first_bad_item_at(items@, i as int));
                return Err(ConfigurationError {
                    error: Error::invalid_configuration(String::from_str("idle_agent_statuses entries must be strings")),
                    span: *span,
                });
            },
            ConfigItem::String { val, span } => match parse_status(val.as_str()) {
                Some(status) => {
                    let ghost before = statuses@;
                    statuses.push(status);
                    proof {
                        assert forall|s: AgentStatus| statuses@.contains(s) <==> exists|k: int| 0 <= k < i + 1 && item_status(#[trigger] items@[k]) == Some(s) by {
                            if statuses@.contains(s) {
                                let j = choose|j: int| 0 <= j < statuses@.len() && statuses@[j] == s;
                                if j < before.len() {
                                    assert(before.contains(s));
                                } else {
                                    assert(item_status(items@[i as int]) == Some(s));
                                }
                            }
                            if exists|k: int| 0 <= k < i + 1 && item_status(#[trigger] items@[k]) == Some(s) {
                                let k = choose|k: int| 0 <= k < i + 1 && item_status(#[trigger] items@[k]) == Some(s);
                                if k < i {
                                    assert(before.contains(s));
                                    let j = choose|j: int| 0 <= j < before.len() && before[j] == s;
                                    assert(statuses@[j] == s);
                                } else {
                                    assert(statuses@[before.len() as int] == s);
                                }
                            }
                        }
                    }
                },
                None => {
                    assert(first_bad_item_at(items@, i as int));
                    return Err(ConfigurationError {
                        error: Error::invalid_configuration(concat("unsupported idle agent status: ", val.as_str())),
                        span: *span,
                    });
                },
            },
        }
        i += 1;
    }
    proof {
        assert forall|k: int| !first_bad_item_at(items@, k) by {
            if first_bad_item_at(items@, k) {
                assert(item_error(items@[k]) is None);
            }
        }
    }
    let p = AgentIdlePolicy::from_statuses(statuses.as_slice());
    Ok(p)
}

/// Parse the plugin configuration strictly.
pub fn parse_plugin_config(config: Option<&ConfigValue>) -> (r: Result<CommandConfig, ConfigurationError>)
    ensures
        config_result_matches(r, spec_parse_config(opt_config(config))),
{
    let value = match config {
        None => return Ok(CommandConfig { dynamic_completion: false, idle_agent_policy: AgentIdlePolicy::default_policy() }),
        Some(v) => v,
    };
    match value {
        ConfigValue::Other { span } => Err(ConfigurationError {
            error: Error::invalid_configuration(String::from_str("plugin configuration must be a record")),
            span: *span,
        }),
        ConfigValue::Record { fields, span } => parse_record(fields, *span),
    }
}

fn parse_record(fields: &Vec<(String, ConfigField)>, span: Span) -> (r: Result<CommandConfig, ConfigurationError>)
    ensures
        config_result_matches(r, spec_parse_config(Some(ConfigValue::Record { fields: *fields, span }))),
{
    let mut i: usize = 0;
    while i < fields.len()
        invariant
            i <= fields@.len(),
            forall|j: int| 0 <= j < i ==> known_key(#[trigger] fields@[j].0@),
        decreases fields@.len() - i,
    {
        let key = fields[i].0.as_str();
        if !(str_equal(key, "dynamic_completion") || str_equal(key, "idle_agent_statuses")) {
            proof {
                assert(first_unknown_at(fields@, i as int));
                let c = choose|c: int| first_unknown_at(fields@, c);
                if c < i {
                    assert(known_key(fields@[c].0@));
                } else if i < c {
                    assert(known_key(fields@[i as int].0@));
                }
                assert(c == i);
            }
            let message = concat("unknown plugin configuration key: ", key);
            assert(message@ == "unknown plugin configuration key: "@ + fields@[i as int].0@);
            return Err(ConfigurationError {
                error: Error::invalid_configuration(message),
                span,
            });
        }
        i += 1;
    }
    proof {
        if exists|k: int| first_unknown_at(fields@, k) {
            let k = choose|k: int| first_unknown_at(fields@, k);
            assert(known_key(fields@[k].0@));
        }
    }
    let dynamic_completion = match find_key(fields, "dynamic_completion") {
        Some(k) => {
            proof { lemma_lookup(fields@, "dynamic_completion"@, k as int); }
            matches!(fields[k].1, ConfigField::Bool { val: true, .. })
        },
        None => {
            proof { lemma_lookup_none(fields@, "dynamic_completion"@); }
            false
        },
    };
    match find_key(fields, "idle_agent_statuses") {
        None => {
            proof { lemma_lookup_none(fields@, "idle_agent_statuses"@); }
            Ok(CommandConfig { dynamic_completion, idle_agent_policy: AgentIdlePolicy::default_policy() })
        },
        Some(k) => {
            proof { lemma_lookup(fields@, "idle_agent_statuses"@, k as int); }
            match &fields[k].1 {
                ConfigField::List { items, .. } => {
                    match parse_idle_agent_statuses(items) {
                        Ok(policy) => Ok(CommandConfig { dynamic_completion, idle_agent_policy: policy }),
                        Err(e) => {
                            proof {
                                let w = choose|w: int| first_bad_item_at(items@, w) && item_error(items@[w]) == Some((e.error@, e.span));
                                let c = choose|c: int| first_bad_item_at(items@, c);
                                if c < w {
                                    assert(item_error(items@[c]) is None);
                                } else if w < c {
                                    assert(item_error(items@[w]) is None);
                                }
                            }
                            Err(e)
                        },
                    }
                },
                ConfigField::Bool { span, .. } => Err(ConfigurationError {
                    error: Error::invalid_configuration(String::from_str("idle_agent_statuses must be a list")),
                    span: *span,
                }),
                ConfigField::Other { span } => Err(ConfigurationError {
                    error: Error::invalid_configuration(String::from_str("idle_agent_statuses must be a list")),
                    span: *span,
                }),
            }
        },
    }
}

/// Read the configuration from the engine's answer: an unavailable
/// configuration is invalid at the command head.
pub fn read_command_config(config: Result<Option<ConfigValue>, Error>, head: Span) -> (r: Result<CommandConfig, ConfigurationError>)
    ensures
        config is Err ==> (r matches Err(e) && e.error@ == config_error("plugin configuration is unavailable"@) && e.span == head),
        config matches Ok(c) ==> config_result_matches(r, spec_parse_config(c)),
{
    match config {
        Err(_) => Err(ConfigurationError {
            error: Error::invalid_configuration(String::from_str("plugin configuration is unavailable")),
            span: head,
        }),
        Ok(c) => match &c {
            Some(v) => parse_plugin_config(Some(v)),
            None => parse_plugin_config(None),
        },
    }
}

/// Dynamic completion is on only for a record whose `dynamic_completion`
/// is boolean `true`; any failure to read the configuration leaves it off.
pub open spec fn spec_dynamic_completion_enabled(config: Result<Option<ConfigValue>, ErrorView>) -> bool {
    match config {
        Ok(Some(ConfigValue::Record { fields, .. })) => lookup(fields@, "dynamic_completion"@) matches Some(ConfigField::Bool { val: true, .. }),
        _ => false,
    }
}

pub open spec fn config_read_view(config: Result<Option<ConfigValue>, Error>) -> Result<Option<ConfigValue>, ErrorView> {
    match config {
        Ok(c) => Ok(c),
        Err(e) => Err(e@),
    }
}

pub fn dynamic_completion_enabled(config: &Result<Option<ConfigValue>, Error>) -> (r: bool)
    ensures
        r == spec_dynamic_completion_enabled(config_read_view(*config)),
{
    match config {
        Ok(Some(ConfigValue::Record { fields, .. })) => match find_key(fields, "dynamic_completion") {
            Some(k) => {
                proof { lemma_lookup(fields@, "dynamic_completion"@, k as int); }
                matches!(fields[k].1, ConfigField::Bool { val: true, .. })
            },
            None => {
                proof { lemma_lookup_none(fields@, "dynamic_completion"@); }
                false
            },
        },
        _ => false,
    }
}

} // verus!
