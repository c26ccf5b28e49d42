use eppo_core::bandits::{BanditCoefficients, BanditModel, BanditModelData,
    BanditNumericAttributeCoefficient, ContextAttributes};
use eppo_core::configuration::{BanditAssociation, BanditEntry, Configuration};
use eppo_core::eval_assignment::{flag_evaluation_error, EvaluationError, EvaluationFailure,
    FlagEvaluationError};
use eppo_core::eval_bandits::{get_bandit_action, get_bandit_action_details};
use eppo_core::eval_details::FlagEvaluationCode;
use eppo_core::events::EventMetaData;
use eppo_core::ufc::{Allocation, Flag, FlagEntry, Split, TryParse, UniversalFlagConfig, Value,
    Variation, VariationType};

fn bandit_meta() -> EventMetaData {
    EventMetaData {
        sdk_name: "rust-sdk".to_string(),
        sdk_version: "1.0.0".to_string(),
        core_version: "0.1.0".to_string(),
    }
}

fn intercept_only(action_key: &str, intercept: i64) -> BanditCoefficients {
    BanditCoefficients {
        action_key: action_key.to_string(),
        intercept,
        action_numeric_coefficients: Vec::new(),
        action_categorical_coefficients: Vec::new(),
        subject_numeric_coefficients: Vec::new(),
        subject_categorical_coefficients: Vec::new(),
    }
}

/// A snapshot where flag `f` always assigns variation `banditA`, which is
/// associated with bandit `B`.
fn bandit_config(model_data: BanditModelData) -> Configuration {
    let flag = Flag {
        key: "f".to_string(),
        enabled: true,
        variation_type: VariationType::String,
        variations: vec![Variation {
            key: "banditA".to_string(),
            value: Value::String("banditA".to_string()),
        }],
        allocations: vec![Allocation {
            key: "a".to_string(),
            rules: Vec::new(),
            start_at: None,
            end_at: None,
            splits: vec![Split {
                variation_key: "banditA".to_string(),
                shards: Vec::new(),
                extra_logging: Vec::new(),
            }],
            do_log: false,
        }],
        total_shards: 10_000,
    };
    Configuration {
        flags: UniversalFlagConfig {
            flags: vec![FlagEntry {
                key: "f".to_string(),
                flag: TryParse::Parsed(flag),
            }],
            environment_name: "Test".to_string(),
            created_at: 0,
        },
        bandits: vec![BanditEntry {
            key: "B".to_string(),
            model: BanditModel {
                model_version: "v123".to_string(),
                model_data,
            },
        }],
        flag_to_bandit_associations: vec![BanditAssociation {
            flag_key: "f".to_string(),
            variation_value: "banditA".to_string(),
            bandit_key: "B".to_string(),
        }],
        fetched_at: 0,
    }
}

fn two_actions() -> Vec<(String, ContextAttributes)> {
    let empty = ContextAttributes {
        numeric: Vec::new(),
        categorical: Vec::new(),
    };
    vec![
        ("x".to_string(), empty.clone()),
        ("y".to_string(), empty.clone()),
    ]
}

#[test]
fn bandit_flow_selects_the_better_action() {
    // gamma = 1.0, floor = 0.1, default score 0; action x scores 5.0 and
    // y scores 1.0; for subject "alice" the selection lands on x
    let model = BanditModelData {
        gamma: 1_000_000,
        default_action_score: 0,
        action_probability_floor: 100_000,
        coefficients: vec![intercept_only("x", 5_000_000), intercept_only("y", 1_000_000)],
    };
    let config = bandit_config(model);
    let actions = two_actions();
    let ctx = ContextAttributes {
        numeric: Vec::new(),
        categorical: Vec::new(),
    };
    let gattrs = ctx.to_generic_attributes();

    let r = get_bandit_action(
        Some(&config),
        "f",
        "alice",
        &gattrs,
        &ctx,
        &actions,
        "fallback",
        0,
        &bandit_meta(),
    );
    assert_eq!(r.variation, "banditA");
    assert_eq!(r.action, Some("x".to_string()));
    let event = r.bandit_event.unwrap();
    assert_eq!(event.flag_key, "f");
    assert_eq!(event.bandit_key, "B");
    assert_eq!(event.subject, "alice");
    assert_eq!(event.action, "x");
    assert_eq!(event.model_version, "v123");
    // y takes 1e12 / (2e6 + 1.0 * 4.0e6) micros, x the remainder
    assert_eq!(event.action_probability, 1_000_000 - 166_666);
    assert_eq!(event.optimality_gap, 0);

    // identical inputs select the identical action
    let again = get_bandit_action(
        Some(&config),
        "f",
        "alice",
        &gattrs,
        &ctx,
        &actions,
        "fallback",
        0,
        &bandit_meta(),
    );
    assert_eq!(again.action, r.action);
    assert_eq!(again.variation, r.variation);
}

#[test]
fn equal_scores_break_ties_deterministically() {
    let model = BanditModelData {
        gamma: 1_000_000,
        default_action_score: 0,
        action_probability_floor: 0,
        coefficients: vec![intercept_only("x", 2_000_000), intercept_only("y", 2_000_000)],
    };
    let config = bandit_config(model);
    let actions = two_actions();
    let ctx = ContextAttributes {
        numeric: Vec::new(),
        categorical: Vec::new(),
    };
    let gattrs = ctx.to_generic_attributes();
    let first = get_bandit_action(
        Some(&config),
        "f",
        "alice",
        &gattrs,
        &ctx,
        &actions,
        "fallback",
        0,
        &bandit_meta(),
    );
    let second = get_bandit_action(
        Some(&config),
        "f",
        "alice",
        &gattrs,
        &ctx,
        &actions,
        "fallback",
        0,
        &bandit_meta(),
    );
    assert!(first.action.is_some());
    assert_eq!(first.action, second.action);
    assert_eq!(first.bandit_event.unwrap().action_probability,
        second.bandit_event.unwrap().action_probability);
}

#[test]
fn single_action_takes_the_whole_weight() {
    let model = BanditModelData {
        gamma: 1_000_000,
        default_action_score: 0,
        action_probability_floor: 0,
        coefficients: Vec::new(),
    };
    let config = bandit_config(model);
    let ctx = ContextAttributes {
        numeric: Vec::new(),
        categorical: Vec::new(),
    };
    let gattrs = ctx.to_generic_attributes();
    let actions = vec![("only".to_string(), ctx.clone())];
    let r = get_bandit_action(
        Some(&config),
        "f",
        "alice",
        &gattrs,
        &ctx,
        &actions,
        "fallback",
        0,
        &bandit_meta(),
    );
    assert_eq!(r.action, Some("only".to_string()));
    // the sole action is best and receives the full probability
    assert_eq!(r.bandit_event.unwrap().action_probability, 1_000_000);
}

#[test]
fn no_actions_returns_variation_alone() {
    let model = BanditModelData {
        gamma: 1_000_000,
        default_action_score: 0,
        action_probability_floor: 0,
        coefficients: Vec::new(),
    };
    let config = bandit_config(model);
    let ctx = ContextAttributes {
        numeric: Vec::new(),
        categorical: Vec::new(),
    };
    let gattrs = ctx.to_generic_attributes();
    let r = get_bandit_action(
        Some(&config),
        "f",
        "alice",
        &gattrs,
        &ctx,
        &Vec::new(),
        "fallback",
        0,
        &bandit_meta(),
    );
    assert_eq!(r.variation, "banditA");
    assert!(r.action.is_none());
    assert!(r.bandit_event.is_none());
}

#[test]
fn non_bandit_variation_returns_variation_alone() {
    let model = BanditModelData {
        gamma: 1_000_000,
        default_action_score: 0,
        action_probability_floor: 0,
        coefficients: Vec::new(),
    };
    let mut config = bandit_config(model);
    config.flag_to_bandit_associations.clear();
    let ctx = ContextAttributes {
        numeric: Vec::new(),
        categorical: Vec::new(),
    };
    let gattrs = ctx.to_generic_attributes();
    let r = get_bandit_action(
        Some(&config),
        "f",
        "alice",
        &gattrs,
        &ctx,
        &two_actions(),
        "fallback",
        0,
        &bandit_meta(),
    );
    assert_eq!(r.variation, "banditA");
    assert!(r.action.is_none());
    assert!(r.bandit_event.is_none());
}

#[test]
fn missing_configuration_returns_default_variation() {
    let ctx = ContextAttributes {
        numeric: Vec::new(),
        categorical: Vec::new(),
    };
    let gattrs = ctx.to_generic_attributes();
    let r = get_bandit_action(
        None,
        "f",
        "alice",
        &gattrs,
        &ctx,
        &two_actions(),
        "fallback",
        0,
        &bandit_meta(),
    );
    assert_eq!(r.variation, "fallback");
    assert!(r.action.is_none());
}

#[test]
fn numeric_coefficients_shape_the_score() {
    // y's score follows the subject's "age" attribute; with a large age y
    // overtakes x
    let y = BanditCoefficients {
        action_key: "y".to_string(),
        intercept: 0,
        action_numeric_coefficients: Vec::new(),
        action_categorical_coefficients: Vec::new(),
        subject_numeric_coefficients: vec![BanditNumericAttributeCoefficient {
            attribute_key: "age".to_string(),
            coefficient: 1_000_000,
            missing_value_coefficient: 0,
        }],
        subject_categorical_coefficients: Vec::new(),
    };
    let model = BanditModelData {
        gamma: 1_000_000,
        default_action_score: 0,
        action_probability_floor: 0,
        coefficients: vec![intercept_only("x", 5_000_000), y],
    };
    let config = bandit_config(model);
    let ctx = ContextAttributes {
        numeric: vec![("age".to_string(), 100_000_000)],
        categorical: Vec::new(),
    };
    let gattrs = ctx.to_generic_attributes();
    let r = get_bandit_action(
        Some(&config),
        "f",
        "alice",
        &gattrs,
        &ctx,
        &two_actions(),
        "fallback",
        0,
        &bandit_meta(),
    );
    // y scores 100.0 against x's 5.0: the optimality gap of whatever is
    // selected is measured against y
    let event = r.bandit_event.unwrap();
    if r.action == Some("y".to_string()) {
        assert_eq!(event.optimality_gap, 0);
    } else {
        assert_eq!(event.optimality_gap, 95_000_000);
    }
}

#[test]
fn selection_frequency_tracks_the_weights() {
    // as the subject varies, the empirical selection frequencies approach
    // the computed weights; with these scores y carries about a sixth of
    // the probability
    let model = BanditModelData {
        gamma: 1_000_000,
        default_action_score: 0,
        action_probability_floor: 100_000,
        coefficients: vec![intercept_only("x", 5_000_000), intercept_only("y", 1_000_000)],
    };
    let ctx = ContextAttributes {
        numeric: Vec::new(),
        categorical: Vec::new(),
    };
    let actions = two_actions();
    let trials = 40_000;
    let mut picked_y = 0u32;
    for i in 0..trials {
        let subject = format!("subject-{i}");
        let evaluation = model
            .evaluate("f", &subject, &ctx, &actions)
            .expect("two actions were supplied");
        if evaluation.action_key == "y" {
            picked_y += 1;
        }
    }
    let frequency = picked_y as f64 / trials as f64;
    let expected = 166_666.0 / 1_000_000.0;
    assert!(
        (frequency - expected).abs() < 0.02,
        "frequency {frequency} strays from {expected}"
    );
}

#[test]
fn evaluation_failures_map_to_user_errors() {
    assert_eq!(
        flag_evaluation_error(EvaluationFailure::ConfigurationMissing),
        Some(FlagEvaluationError::ConfigurationMissing)
    );
    assert_eq!(
        flag_evaluation_error(EvaluationFailure::FlagDisabled),
        Some(FlagEvaluationError::FlagNotFound)
    );
    assert_eq!(
        flag_evaluation_error(EvaluationFailure::Error(EvaluationError::TypeMismatch {
            expected: VariationType::Boolean,
            found: VariationType::String,
        })),
        Some(FlagEvaluationError::InvalidType {
            expected: VariationType::Boolean,
            found: VariationType::String,
        })
    );
    assert_eq!(
        flag_evaluation_error(EvaluationFailure::DefaultAllocationNull),
        None
    );
}

#[test]
fn unresolved_flag_never_consults_the_bandit() {
    // the flag table is empty, but the caller's default variation is
    // itself tied to a bandit with a model and actions: the default must
    // come back alone, with no action and no bandit event
    let model = BanditModelData {
        gamma: 1_000_000,
        default_action_score: 0,
        action_probability_floor: 0,
        coefficients: vec![intercept_only("x", 1_000_000)],
    };
    let mut config = bandit_config(model);
    config.flags.flags.clear();
    config.flag_to_bandit_associations[0].variation_value = "fallback".to_string();
    let ctx = ContextAttributes {
        numeric: Vec::new(),
        categorical: Vec::new(),
    };
    let gattrs = ctx.to_generic_attributes();
    let r = get_bandit_action(
        Some(&config),
        "f",
        "alice",
        &gattrs,
        &ctx,
        &two_actions(),
        "fallback",
        0,
        &bandit_meta(),
    );
    assert_eq!(r.variation, "fallback");
    assert!(r.action.is_none());
    assert!(r.assignment_event.is_none());
    assert!(r.bandit_event.is_none());
}

#[test]
fn bandit_details_record_the_flag_evaluation() {
    let model = BanditModelData {
        gamma: 1_000_000,
        default_action_score: 0,
        action_probability_floor: 100_000,
        coefficients: vec![intercept_only("x", 5_000_000), intercept_only("y", 1_000_000)],
    };
    let config = bandit_config(model);
    let actions = two_actions();
    let ctx = ContextAttributes {
        numeric: Vec::new(),
        categorical: Vec::new(),
    };
    let gattrs = ctx.to_generic_attributes();
    let (result, details) = get_bandit_action_details(
        Some(&config),
        "f",
        "alice",
        &gattrs,
        &ctx,
        &actions,
        "fallback",
        0,
        &bandit_meta(),
    );
    assert_eq!(result.variation, "banditA");
    assert_eq!(result.action, Some("x".to_string()));
    assert_eq!(details.flag_key, "f");
    assert_eq!(details.flag_evaluation_code, FlagEvaluationCode::Match);
    assert_eq!(details.variation_key, Some("banditA".to_string()));
    assert_eq!(details.allocations.len(), 1);
}
