use eppo_core::attributes::{AttributeValue, Attributes};
use eppo_core::configuration::Configuration;
use eppo_core::configuration_fetcher::{ConfigurationFetcher, ConfigurationFetcherConfig,
    FetchClass, SdkMetadata};
use eppo_core::configuration_store::ConfigurationStore;
use eppo_core::numbers::render_i64;
use eppo_core::poller::PollerThread;
use eppo_core::rules::{eval_condition, Condition, ConditionOperand, Operator};
use eppo_core::ufc::UniversalFlagConfig;

fn fetcher() -> ConfigurationFetcher {
    ConfigurationFetcher::new(ConfigurationFetcherConfig {
        base_url: "https://example.invalid/api".to_string(),
        api_key: "key".to_string(),
        sdk_metadata: SdkMetadata {
            name: "rust-sdk".to_string(),
            version: "1.0.0".to_string(),
        },
    })
}

fn empty_configuration(fetched_at: i64) -> Configuration {
    Configuration {
        flags: UniversalFlagConfig {
            flags: Vec::new(),
            environment_name: "Test".to_string(),
            created_at: 0,
        },
        bandits: Vec::new(),
        flag_to_bandit_associations: Vec::new(),
        fetched_at,
    }
}

#[test]
fn store_replaces_snapshots_wholesale() {
    let mut store = ConfigurationStore::new();
    assert!(store.get().is_none());
    assert_eq!(store.get_configuration_age(100), None);

    store.set(empty_configuration(40));
    assert_eq!(store.get().unwrap().fetched_at, 40);
    assert_eq!(store.get_configuration_age(100), Some(60));

    store.set(empty_configuration(90));
    assert_eq!(store.get().unwrap().fetched_at, 90);
}

#[test]
fn unauthorized_latch_is_sticky() {
    let mut f = fetcher();
    assert!(f.begin_fetch().is_ok());
    assert_eq!(f.on_response_status(500), FetchClass::Retriable);
    assert!(f.begin_fetch().is_ok());
    assert_eq!(f.on_response_status(401), FetchClass::Unauthorized);
    // every later fetch is refused without a request
    assert_eq!(f.begin_fetch(), Err(FetchClass::Unauthorized));
    assert_eq!(f.on_response_status(200), FetchClass::Success);
    assert!(f.unauthorized);
    assert_eq!(f.begin_fetch(), Err(FetchClass::Unauthorized));
}

#[test]
fn fetch_statuses_classify_by_spec() {
    let mut f = fetcher();
    assert_eq!(f.on_response_status(200), FetchClass::Success);
    assert_eq!(f.on_response_status(204), FetchClass::Success);
    assert_eq!(f.on_response_status(404), FetchClass::NonRetriable);
    assert_eq!(f.on_response_status(503), FetchClass::Retriable);
}

#[test]
fn invalid_base_url_is_surfaced_without_latching() {
    let mut f = fetcher();
    assert_eq!(f.on_invalid_base_url(), FetchClass::InvalidBaseUrl);
    assert!(!f.unauthorized);
    assert!(f.begin_fetch().is_ok());
    assert_eq!(f.on_response_status(503), FetchClass::Retriable);
}

#[test]
fn bandits_are_fetched_only_when_referenced() {
    let f = fetcher();
    assert!(!f.needs_bandit_fetch(0));
    assert!(f.needs_bandit_fetch(3));
}

#[test]
fn poller_sleep_is_jittered_but_never_negative() {
    let poller = PollerThread::start(30_000, 3_000);
    for draw in [0u64, 1, 2_999, 3_000, 999_999_999] {
        let sleep = poller.next_sleep_ms(draw);
        assert!(sleep <= 30_000);
        assert!(sleep > 27_000);
    }
    // without jitter the interval is used as-is
    let plain = PollerThread::start(30_000, 0);
    assert_eq!(plain.next_sleep_ms(12345), 30_000);
}

#[test]
fn poller_publishes_first_success_and_exits_on_unauthorized() {
    let mut poller = PollerThread::start(30_000, 3_000);
    assert!(!poller.wait_for_configuration());

    assert!(!poller.on_fetch_outcome(FetchClass::Retriable));
    assert!(!poller.wait_for_configuration());

    assert!(!poller.on_fetch_outcome(FetchClass::InvalidBaseUrl));
    assert!(!poller.stopped);

    assert!(poller.on_fetch_outcome(FetchClass::Success));
    assert!(poller.wait_for_configuration());
    assert!(!poller.stopped);

    assert!(!poller.on_fetch_outcome(FetchClass::Unauthorized));
    assert!(poller.stopped);
    assert!(poller.unauthorized);
}

#[test]
fn poller_stop_and_shutdown_end_the_loop() {
    let mut poller = PollerThread::start(30_000, 3_000);
    poller.stop();
    assert!(poller.stopped);

    let mut other = PollerThread::start(30_000, 3_000);
    other.shutdown();
    assert!(other.stopped);
}

#[test]
fn numeric_comparators_coerce_and_compare() {
    let mut attrs = Attributes::new();
    attrs.push("age".to_string(), AttributeValue::Numeric(30_000_000));
    attrs.push(
        "version".to_string(),
        AttributeValue::Categorical("1.10.0".to_string()),
    );
    attrs.push(
        "height".to_string(),
        AttributeValue::Categorical("1.75".to_string()),
    );

    let gte_25 = Condition {
        attribute: "age".to_string(),
        operator: Operator::Gte,
        operand: ConditionOperand::Numeric(25_000_000),
    };
    assert!(eval_condition(&gte_25, &attrs, "alice"));

    let lt_25 = Condition {
        attribute: "age".to_string(),
        operator: Operator::Lt,
        operand: ConditionOperand::Numeric(25_000_000),
    };
    assert!(!eval_condition(&lt_25, &attrs, "alice"));

    // "1.10.0" loses to "1.9.0" as text but wins as a version
    let semver_gt = Condition {
        attribute: "version".to_string(),
        operator: Operator::Gt,
        operand: ConditionOperand::String("1.9.0".to_string()),
    };
    assert!(eval_condition(&semver_gt, &attrs, "alice"));

    // a decimal string coerces to a number
    let height_lte = Condition {
        attribute: "height".to_string(),
        operator: Operator::Lte,
        operand: ConditionOperand::String("1.80".to_string()),
    };
    assert!(eval_condition(&height_lte, &attrs, "alice"));

    // comparing a missing attribute fails
    let missing = Condition {
        attribute: "weight".to_string(),
        operator: Operator::Gte,
        operand: ConditionOperand::Numeric(0),
    };
    assert!(!eval_condition(&missing, &attrs, "alice"));
}

#[test]
fn null_checks_and_negations_handle_missing_attributes() {
    let mut attrs = Attributes::new();
    attrs.push("set".to_string(), AttributeValue::Boolean(true));
    attrs.push("cleared".to_string(), AttributeValue::Null);

    let is_null = |attribute: &str, expected: bool| Condition {
        attribute: attribute.to_string(),
        operator: Operator::IsNull,
        operand: ConditionOperand::Boolean(expected),
    };
    assert!(eval_condition(&is_null("missing", true), &attrs, "alice"));
    assert!(eval_condition(&is_null("cleared", true), &attrs, "alice"));
    assert!(eval_condition(&is_null("set", false), &attrs, "alice"));
    assert!(!eval_condition(&is_null("set", true), &attrs, "alice"));

    // a negated membership test holds for a missing attribute
    let not_one_of = Condition {
        attribute: "missing".to_string(),
        operator: Operator::NotOneOf,
        operand: ConditionOperand::List(vec!["a".to_string()]),
    };
    assert!(eval_condition(&not_one_of, &attrs, "alice"));
}

#[test]
fn regex_conditions_match_strings() {
    let mut attrs = Attributes::new();
    attrs.push(
        "email".to_string(),
        AttributeValue::Categorical("alice@example.com".to_string()),
    );

    let matches = Condition {
        attribute: "email".to_string(),
        operator: Operator::Matches,
        operand: ConditionOperand::String("@example\\.com$".to_string()),
    };
    assert!(eval_condition(&matches, &attrs, "alice"));

    let not_matches = Condition {
        attribute: "email".to_string(),
        operator: Operator::NotMatches,
        operand: ConditionOperand::String("@other\\.com$".to_string()),
    };
    assert!(eval_condition(&not_matches, &attrs, "alice"));

    // a missing attribute fails MATCHES and satisfies NOT_MATCHES
    let on_missing = Condition {
        attribute: "phone".to_string(),
        operator: Operator::Matches,
        operand: ConditionOperand::String(".*".to_string()),
    };
    assert!(!eval_condition(&on_missing, &attrs, "alice"));
    let negated_on_missing = Condition {
        attribute: "phone".to_string(),
        operator: Operator::NotMatches,
        operand: ConditionOperand::String(".*".to_string()),
    };
    assert!(eval_condition(&negated_on_missing, &attrs, "alice"));
}

#[test]
fn set_membership_reads_numbers_as_strings() {
    let mut attrs = Attributes::new();
    attrs.push("level".to_string(), AttributeValue::Numeric(30_000_000));
    attrs.push("ratio".to_string(), AttributeValue::Numeric(-2_500_000));

    let level_one_of = Condition {
        attribute: "level".to_string(),
        operator: Operator::OneOf,
        operand: ConditionOperand::List(vec!["30".to_string(), "40".to_string()]),
    };
    assert!(eval_condition(&level_one_of, &attrs, "alice"));

    // a fractional number reads as its decimal rendering
    let ratio_one_of = Condition {
        attribute: "ratio".to_string(),
        operator: Operator::OneOf,
        operand: ConditionOperand::List(vec!["-2.5".to_string()]),
    };
    assert!(eval_condition(&ratio_one_of, &attrs, "alice"));
    let ratio_not_one_of = Condition {
        attribute: "ratio".to_string(),
        operator: Operator::NotOneOf,
        operand: ConditionOperand::List(vec!["-2.50".to_string()]),
    };
    assert!(eval_condition(&ratio_not_one_of, &attrs, "alice"));
}

#[test]
fn rendering_matches_decimal_notation() {
    assert_eq!(render_i64(0), "0");
    assert_eq!(render_i64(7), "7");
    assert_eq!(render_i64(30), "30");
    assert_eq!(render_i64(1234567890), "1234567890");
    assert_eq!(render_i64(-45), "-45");
    assert_eq!(render_i64(i64::MIN / 1_000_000), "-9223372036854");
}
