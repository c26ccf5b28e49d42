use eppo_core::attributes::{AttributeValue, Attributes};
use eppo_core::configuration::Configuration;
use eppo_core::eval_assignment::{get_assignment, EvaluationError};
use eppo_core::eval_details::{get_assignment_details, EvalAllocationResult, FlagEvaluationCode};
use eppo_core::events::EventMetaData;
use eppo_core::rules::{Condition, ConditionOperand, Operator, Rule};
use eppo_core::ufc::{Allocation, AssignmentValue, Flag, FlagEntry, Shard, ShardRange, Split,
    Timestamp, TryParse, UniversalFlagConfig, Value, Variation, VariationType};

fn meta() -> EventMetaData {
    EventMetaData {
        sdk_name: "rust-sdk".to_string(),
        sdk_version: "1.0.0".to_string(),
        core_version: "0.1.0".to_string(),
    }
}

fn millis(rfc3339: &str) -> Timestamp {
    chrono::DateTime::parse_from_rfc3339(rfc3339)
        .unwrap()
        .timestamp_millis()
}

fn match_all_split(variation_key: &str) -> Split {
    Split {
        variation_key: variation_key.to_string(),
        shards: Vec::new(),
        extra_logging: Vec::new(),
    }
}

fn string_flag(key: &str, enabled: bool, allocations: Vec<Allocation>) -> Flag {
    Flag {
        key: key.to_string(),
        enabled,
        variation_type: VariationType::String,
        variations: vec![
            Variation {
                key: "on".to_string(),
                value: Value::String("on-value".to_string()),
            },
            Variation {
                key: "off".to_string(),
                value: Value::String("off-value".to_string()),
            },
        ],
        allocations,
        total_shards: 10_000,
    }
}

fn config_of(flags: Vec<(&str, Flag)>) -> Configuration {
    let entries = flags
        .into_iter()
        .map(|(k, f)| FlagEntry {
            key: k.to_string(),
            flag: TryParse::Parsed(f),
        })
        .collect();
    Configuration {
        flags: UniversalFlagConfig {
            flags: entries,
            environment_name: "Test".to_string(),
            created_at: 0,
        },
        bandits: Vec::new(),
        flag_to_bandit_associations: Vec::new(),
        fetched_at: 0,
    }
}

fn plain_allocation(key: &str, rules: Vec<Rule>, do_log: bool) -> Allocation {
    Allocation {
        key: key.to_string(),
        rules,
        start_at: None,
        end_at: None,
        splits: vec![match_all_split("on")],
        do_log,
    }
}

#[test]
fn disabled_flag_returns_none() {
    let config = config_of(vec![("f", string_flag("f", false, vec![plain_allocation(
        "a", Vec::new(), true,
    )]))]);
    let attrs = Attributes::new();
    let r = get_assignment(Some(&config), "f", "alice", &attrs, None, 0, &meta());
    assert_eq!(r, Ok(None));
}

#[test]
fn missing_configuration_returns_none() {
    let attrs = Attributes::new();
    let r = get_assignment(None, "f", "alice", &attrs, None, 0, &meta());
    assert_eq!(r, Ok(None));
}

#[test]
fn unknown_flag_returns_none() {
    let config = config_of(vec![]);
    let attrs = Attributes::new();
    let r = get_assignment(Some(&config), "missing", "alice", &attrs, None, 0, &meta());
    assert_eq!(r, Ok(None));
}

#[test]
fn failing_rule_returns_none() {
    // single allocation requiring tier = "gold"; the subject carries
    // tier = "silver"
    let rule = Rule {
        conditions: vec![Condition {
            attribute: "tier".to_string(),
            operator: Operator::OneOf,
            operand: ConditionOperand::List(vec!["gold".to_string()]),
        }],
    };
    let config = config_of(vec![(
        "f",
        string_flag("f", true, vec![plain_allocation("a", vec![rule], true)]),
    )]);
    let mut attrs = Attributes::new();
    attrs.push(
        "tier".to_string(),
        AttributeValue::Categorical("silver".to_string()),
    );
    let r = get_assignment(Some(&config), "f", "alice", &attrs, None, 0, &meta());
    assert_eq!(r, Ok(None));
}

#[test]
fn matching_rule_assigns_variation() {
    let rule = Rule {
        conditions: vec![Condition {
            attribute: "tier".to_string(),
            operator: Operator::OneOf,
            operand: ConditionOperand::List(vec!["gold".to_string()]),
        }],
    };
    let config = config_of(vec![(
        "f",
        string_flag("f", true, vec![plain_allocation("a", vec![rule], false)]),
    )]);
    let mut attrs = Attributes::new();
    // set membership compares case-insensitively
    attrs.push(
        "tier".to_string(),
        AttributeValue::Categorical("GOLD".to_string()),
    );
    let r = get_assignment(Some(&config), "f", "alice", &attrs, None, 0, &meta())
        .unwrap()
        .unwrap();
    assert_eq!(r.value, AssignmentValue::String("on-value".to_string()));
    assert!(r.event.is_none());
}

#[test]
fn split_exposure_follows_shards() {
    // one split gated on shard range [0, 4) of 10:
    // "s-alice" hashes to shard 0 and matches; "s-bob" hashes to 7 and
    // misses
    let allocation = Allocation {
        key: "a".to_string(),
        rules: Vec::new(),
        start_at: None,
        end_at: None,
        splits: vec![Split {
            variation_key: "on".to_string(),
            shards: vec![Shard {
                salt: "s".to_string(),
                ranges: vec![ShardRange { start: 0, end: 4 }],
            }],
            extra_logging: Vec::new(),
        }],
        do_log: false,
    };
    let mut flag = string_flag("f", true, vec![allocation]);
    flag.total_shards = 10;
    let config = config_of(vec![("f", flag)]);
    let attrs = Attributes::new();

    let alice = get_assignment(Some(&config), "f", "alice", &attrs, None, 0, &meta()).unwrap();
    assert_eq!(
        alice.unwrap().value,
        AssignmentValue::String("on-value".to_string())
    );

    let bob = get_assignment(Some(&config), "f", "bob", &attrs, None, 0, &meta()).unwrap();
    assert!(bob.is_none());
}

#[test]
fn time_window_gates_allocation() {
    let start = millis("2030-01-01T00:00:00Z");
    let allocation = Allocation {
        key: "a".to_string(),
        rules: Vec::new(),
        start_at: Some(start),
        end_at: None,
        splits: vec![match_all_split("on")],
        do_log: true,
    };
    let config = config_of(vec![("f", string_flag("f", true, vec![allocation]))]);
    let attrs = Attributes::new();

    // before the start instant: no assignment
    let before = millis("2020-01-01T00:00:00Z");
    let r = get_assignment(Some(&config), "f", "alice", &attrs, None, before, &meta()).unwrap();
    assert!(r.is_none());

    // inside the window: assigned, and logged because do_log is set
    let within = millis("2030-06-01T00:00:00Z");
    let r = get_assignment(Some(&config), "f", "alice", &attrs, None, within, &meta())
        .unwrap()
        .unwrap();
    assert_eq!(r.value, AssignmentValue::String("on-value".to_string()));
    let event = r.event.unwrap();
    assert_eq!(event.feature_flag, "f");
    assert_eq!(event.allocation, "a");
    assert_eq!(event.experiment, "f-a");
    assert_eq!(event.variation, "on");
    assert_eq!(event.subject, "alice");
    assert_eq!(event.timestamp, within);
}

#[test]
fn type_mismatch_is_an_error() {
    let config = config_of(vec![(
        "f",
        string_flag("f", true, vec![plain_allocation("a", Vec::new(), false)]),
    )]);
    let attrs = Attributes::new();
    let r = get_assignment(
        Some(&config),
        "f",
        "alice",
        &attrs,
        Some(VariationType::Boolean),
        0,
        &meta(),
    );
    assert_eq!(
        r,
        Err(EvaluationError::TypeMismatch {
            expected: VariationType::Boolean,
            found: VariationType::String,
        })
    );
}

#[test]
fn parse_failed_flag_is_an_error() {
    let config = Configuration {
        flags: UniversalFlagConfig {
            flags: vec![FlagEntry {
                key: "broken".to_string(),
                flag: TryParse::ParseFailed,
            }],
            environment_name: "Test".to_string(),
            created_at: 0,
        },
        bandits: Vec::new(),
        flag_to_bandit_associations: Vec::new(),
        fetched_at: 0,
    };
    let attrs = Attributes::new();
    let r = get_assignment(Some(&config), "broken", "alice", &attrs, None, 0, &meta());
    assert_eq!(r, Err(EvaluationError::UnexpectedConfigurationParseError));
}

#[test]
fn missing_variation_is_an_error() {
    let mut flag = string_flag("f", true, vec![plain_allocation("a", Vec::new(), false)]);
    flag.variations.clear();
    let config = config_of(vec![("f", flag)]);
    let attrs = Attributes::new();
    let r = get_assignment(Some(&config), "f", "alice", &attrs, None, 0, &meta());
    assert_eq!(r, Err(EvaluationError::UnexpectedConfigurationError));
}

#[test]
fn allocation_order_prefers_the_first() {
    // both allocations would match; the first one decides
    let first = Allocation {
        key: "first".to_string(),
        rules: Vec::new(),
        start_at: None,
        end_at: None,
        splits: vec![match_all_split("on")],
        do_log: false,
    };
    let second = Allocation {
        key: "second".to_string(),
        rules: Vec::new(),
        start_at: None,
        end_at: None,
        splits: vec![match_all_split("off")],
        do_log: false,
    };
    let config = config_of(vec![("f", string_flag("f", true, vec![first, second]))]);
    let attrs = Attributes::new();
    let r = get_assignment(Some(&config), "f", "alice", &attrs, None, 0, &meta())
        .unwrap()
        .unwrap();
    assert_eq!(r.value, AssignmentValue::String("on-value".to_string()));
}

#[test]
fn rule_evaluation_sees_id_but_events_do_not() {
    // the rule matches on id = subject key, which the caller never set;
    // the emitted event still carries only the caller's attributes
    let rule = Rule {
        conditions: vec![Condition {
            attribute: "id".to_string(),
            operator: Operator::OneOf,
            operand: ConditionOperand::List(vec!["alice".to_string()]),
        }],
    };
    let config = config_of(vec![(
        "f",
        string_flag("f", true, vec![plain_allocation("a", vec![rule], true)]),
    )]);
    let mut attrs = Attributes::new();
    attrs.push(
        "tier".to_string(),
        AttributeValue::Categorical("gold".to_string()),
    );

    let alice = get_assignment(Some(&config), "f", "alice", &attrs, None, 0, &meta())
        .unwrap()
        .unwrap();
    let event = alice.event.unwrap();
    assert_eq!(event.subject_attributes.entries.len(), 1);
    assert_eq!(event.subject_attributes.entries[0].name, "tier");

    // a different subject does not satisfy the id rule
    let bob = get_assignment(Some(&config), "f", "bob", &attrs, None, 0, &meta()).unwrap();
    assert!(bob.is_none());
}

#[test]
fn repeated_evaluation_is_deterministic() {
    let config = config_of(vec![(
        "f",
        string_flag("f", true, vec![plain_allocation("a", Vec::new(), true)]),
    )]);
    let mut attrs = Attributes::new();
    attrs.push("age".to_string(), AttributeValue::Numeric(30_000_000));
    let a = get_assignment(Some(&config), "f", "alice", &attrs, None, 17, &meta()).unwrap();
    let b = get_assignment(Some(&config), "f", "alice", &attrs, None, 17, &meta()).unwrap();
    assert_eq!(a, b);
}

#[test]
fn details_record_the_outcome() {
    let gated = Allocation {
        key: "gated".to_string(),
        rules: vec![Rule {
            conditions: vec![Condition {
                attribute: "tier".to_string(),
                operator: Operator::OneOf,
                operand: ConditionOperand::List(vec!["gold".to_string()]),
            }],
        }],
        start_at: None,
        end_at: None,
        splits: vec![match_all_split("off")],
        do_log: false,
    };
    let open = plain_allocation("open", Vec::new(), false);
    let trailing = plain_allocation("trailing", Vec::new(), false);
    let config = config_of(vec![(
        "f",
        string_flag("f", true, vec![gated, open, trailing]),
    )]);
    let attrs = Attributes::new();
    let (details, event) =
        get_assignment_details(Some(&config), "f", "alice", &attrs, None, 0, &meta());
    assert_eq!(details.flag_evaluation_code, FlagEvaluationCode::Match);
    assert_eq!(
        details.result,
        Some(AssignmentValue::String("on-value".to_string()))
    );
    assert_eq!(details.variation_key, Some("on".to_string()));
    assert_eq!(details.allocations.len(), 3);
    assert_eq!(details.allocations[0].key, "gated");
    assert_eq!(
        details.allocations[0].result,
        EvalAllocationResult::FailingRules
    );
    assert_eq!(details.allocations[1].key, "open");
    assert_eq!(details.allocations[1].result, EvalAllocationResult::Matched);
    assert_eq!(details.allocations[2].key, "trailing");
    assert_eq!(
        details.allocations[2].result,
        EvalAllocationResult::Unevaluated
    );
    assert!(event.is_none());
}

#[test]
fn details_list_unevaluated_allocations_for_disabled_flags() {
    let config = config_of(vec![(
        "f",
        string_flag(
            "f",
            false,
            vec![
                plain_allocation("a", Vec::new(), false),
                plain_allocation("b", Vec::new(), false),
            ],
        ),
    )]);
    let attrs = Attributes::new();
    let (details, event) =
        get_assignment_details(Some(&config), "f", "alice", &attrs, None, 0, &meta());
    assert_eq!(
        details.flag_evaluation_code,
        FlagEvaluationCode::FlagUnrecognizedOrDisabled
    );
    assert_eq!(details.allocations.len(), 2);
    assert_eq!(details.allocations[0].key, "a");
    assert_eq!(
        details.allocations[0].result,
        EvalAllocationResult::Unevaluated
    );
    assert_eq!(details.allocations[1].key, "b");
    assert_eq!(
        details.allocations[1].result,
        EvalAllocationResult::Unevaluated
    );
    assert!(event.is_none());
}

#[test]
fn details_travel_on_the_logged_event() {
    let config = config_of(vec![(
        "f",
        string_flag("f", true, vec![plain_allocation("a", Vec::new(), true)]),
    )]);
    let attrs = Attributes::new();
    let (details, event) =
        get_assignment_details(Some(&config), "f", "alice", &attrs, None, 0, &meta());
    let carried = event.unwrap().evaluation_details.unwrap();
    assert_eq!(carried.flag_evaluation_code, details.flag_evaluation_code);
    assert_eq!(carried.result, details.result);
    assert_eq!(carried.variation_key, details.variation_key);
    assert_eq!(carried.allocations.len(), details.allocations.len());
}

#[test]
fn details_report_missing_configuration() {
    let attrs = Attributes::new();
    let (details, event) =
        get_assignment_details(None, "f", "alice", &attrs, None, 0, &meta());
    assert_eq!(
        details.flag_evaluation_code,
        FlagEvaluationCode::ConfigurationMissing
    );
    assert!(details.configuration_details.is_none());
    assert!(details.result.is_none());
    assert!(event.is_none());
}

#[test]
fn integer_variations_require_whole_numbers() {
    let flag = Flag {
        key: "n".to_string(),
        enabled: true,
        variation_type: VariationType::Integer,
        variations: vec![Variation {
            key: "three".to_string(),
            value: Value::Numeric(3_000_000),
        }],
        allocations: vec![Allocation {
            key: "a".to_string(),
            rules: Vec::new(),
            start_at: None,
            end_at: None,
            splits: vec![match_all_split("three")],
            do_log: false,
        }],
        total_shards: 10_000,
    };
    let config = config_of(vec![("n", flag)]);
    let attrs = Attributes::new();
    let r = get_assignment(Some(&config), "n", "alice", &attrs, None, 0, &meta())
        .unwrap()
        .unwrap();
    assert_eq!(r.value, AssignmentValue::Integer(3));
}
