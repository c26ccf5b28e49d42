//! Evaluation details: a full record of one flag evaluation.
//!
//! The detail-building evaluator records, for every allocation it walks,
//! the outcome code and the rules and splits it examined. Detail recording
//! never changes the evaluation outcome; it only observes it.

use vstd::prelude::*;
use vstd::string::*;

use crate::attributes::{AttributeValue, Attributes};
use crate::configuration::Configuration;
use crate::eval_assignment::{allocation_outcome, first_allocation_match_from, flag_eval_result,
    get_assignment, lemma_first_alloc_from, lemma_lookup_well_formed, AllocOutcome,
    AllocationNonMatchReason, EvaluationError, EvaluationFailure, FlagEvalSpec};
use crate::events::{AssignmentEvent, EventMetaData};
use crate::rules::Condition;
use crate::ufc::{AssignmentValue, Shard, Timestamp, TryParse, Value};

verus! {

/// Why a flag evaluation ended the way it did, as shown to users of the
/// details API.
#[derive(Debug, Clone, Copy, PartialEq, Eq, Structural)]
pub enum FlagEvaluationCode {
    Match,
    ConfigurationMissing,
    FlagUnrecognizedOrDisabled,
    TypeMismatch,
    AssignmentError,
    DefaultAllocationNull,
}

/// Details of the configuration used for an evaluation.
#[derive(Debug, Clone, PartialEq)]
pub struct ConfigurationDetails {
    /// When the SDK received the snapshot.
    pub fetched_at: Timestamp,
    /// When the server published the snapshot.
    pub published_at: Timestamp,
    /// Environment the snapshot belongs to.
    pub environment_name: String,
}

/// The outcome of evaluating one allocation.
#[derive(Debug, Clone, Copy, PartialEq, Eq, Structural)]
pub enum EvalAllocationResult {
    Unevaluated,
    Matched,
    BeforeStartDate,
    AfterEndDate,
    FailingRules,
    TrafficExposureMiss,
}

/// Details of one condition evaluation.
#[derive(Debug, Clone, PartialEq)]
pub struct EvalConditionDetails {
    pub condition: Condition,
    pub attribute_value: Option<AttributeValue>,
    pub matched: bool,
}

/// Details of one rule evaluation.
#[derive(Debug, Clone, PartialEq)]
pub struct EvalRuleDetails {
    pub matched: bool,
    pub conditions: Vec<EvalConditionDetails>,
}

/// Details of one shard evaluation.
#[derive(Debug, Clone, PartialEq)]
pub struct EvalShardDetails {
    pub matched: bool,
    pub shard: Shard,
    pub shard_value: u64,
}

/// Details of one split evaluation.
#[derive(Debug, Clone, PartialEq)]
pub struct EvalSplitDetails {
    pub variation_key: String,
    pub matched: bool,
    pub shards: Vec<EvalShardDetails>,
}

/// Details of one allocation evaluation.
#[derive(Debug, Clone, PartialEq)]
pub struct EvalAllocationDetails {
    pub key: String,
    pub result: EvalAllocationResult,
    pub evaluated_rules: Vec<EvalRuleDetails>,
    pub evaluated_splits: Vec<EvalSplitDetails>,
}

/// Everything recorded about one flag evaluation.
#[derive(Debug, Clone, PartialEq)]
pub struct EvalFlagDetails {
    pub flag_key: String,
    pub subject_key: String,
    pub subject_attributes: Attributes,
    pub timestamp: Timestamp,
    /// `None` when no configuration has been fetched yet.
    pub configuration_details: Option<ConfigurationDetails>,
    pub flag_evaluation_code: FlagEvaluationCode,
    pub result: Option<AssignmentValue>,
    /// Key of the selected variation, if one was selected.
    pub variation_key: Option<String>,
    /// Value of the selected variation, if present in the configuration.
    pub variation_value: Option<Value>,
    pub allocations: Vec<EvalAllocationDetails>,
}


/// Two detail records agree on every field the evaluation contract pins:
/// who was evaluated, the outcome, and the per-allocation codes. The
/// nested rule and split records are observational and not compared.
pub open spec fn same_details_content(a: &EvalFlagDetails, b: &EvalFlagDetails) -> bool {
    &&& a.flag_key@ == b.flag_key@
    &&& a.subject_key@ == b.subject_key@
    &&& crate::events::attrs_content(&a.subject_attributes) == crate::events::attrs_content(
        &b.subject_attributes,
    )
    &&& a.timestamp == b.timestamp
    &&& (match (a.configuration_details, b.configuration_details) {
        (Some(x), Some(y)) => x.fetched_at == y.fetched_at && x.published_at == y.published_at
            && x.environment_name@ == y.environment_name@,
        (None, None) => true,
        _ => false,
    })
    &&& a.flag_evaluation_code == b.flag_evaluation_code
    &&& (match (a.result, b.result) {
        (Some(x), Some(y)) => x@ == y@,
        (None, None) => true,
        _ => false,
    })
    &&& (match (a.variation_key, b.variation_key) {
        (Some(x), Some(y)) => x@ == y@,
        (None, None) => true,
        _ => false,
    })
    &&& (match (a.variation_value, b.variation_value) {
        (Some(x), Some(y)) => x@ == y@,
        (None, None) => true,
        _ => false,
    })
    &&& a.allocations@.len() == b.allocations@.len()
    &&& (forall|j: int|
        0 <= j < a.allocations@.len() ==> (#[trigger] a.allocations@[j]).key@
            == b.allocations@[j].key@ && a.allocations@[j].result == b.allocations@[j].result)
}

impl EvalFlagDetails {
    /// A copy agreeing with this record on every pinned field; the nested
    /// rule and split records are carried over as they are.
    pub fn duplicate(&self) -> (r: EvalFlagDetails)
        ensures
            same_details_content(&r, self),
    {
        let configuration_details = match &self.configuration_details {
            Some(c) => Some(
                ConfigurationDetails {
                    fetched_at: c.fetched_at,
                    published_at: c.published_at,
                    environment_name: String::from_str(c.environment_name.as_str()),
                },
            ),
            None => None,
        };
        let result = match &self.result {
            Some(v) => Some(v.duplicate()),
            None => None,
        };
        let variation_key = match &self.variation_key {
            Some(s) => Some(String::from_str(s.as_str())),
            None => None,
        };
        let variation_value = match &self.variation_value {
            Some(v) => Some(v.duplicate()),
            None => None,
        };
        let mut allocations: Vec<EvalAllocationDetails> = Vec::new();
        let n = self.allocations.len();
        let mut i: usize = 0;
        while i < n
            invariant
                0 <= i <= n == self.allocations@.len(),
                allocations@.len() == i,
                forall|j: int|
                    0 <= j < i ==> (#[trigger] allocations@[j]).key@
                        == self.allocations@[j].key@ && allocations@[j].result
                        == self.allocations@[j].result,
            decreases n - i,
        {
            let a = &self.allocations[i];
            allocations.push(
                EvalAllocationDetails {
                    key: String::from_str(a.key.as_str()),
                    result: a.result,
                    evaluated_rules: a.evaluated_rules.clone(),
                    evaluated_splits: a.evaluated_splits.clone(),
                },
            );
            i = i + 1;
        }
        EvalFlagDetails {
            flag_key: String::from_str(self.flag_key.as_str()),
            subject_key: String::from_str(self.subject_key.as_str()),
            subject_attributes: self.subject_attributes.duplicate(),
            timestamp: self.timestamp,
            configuration_details,
            flag_evaluation_code: self.flag_evaluation_code,
            result,
            variation_key,
            variation_value,
            allocations,
        }
    }
}

/// The user-visible code of an evaluation failure.
pub open spec fn failure_code(f: EvaluationFailure) -> FlagEvaluationCode {
    match f {
        EvaluationFailure::ConfigurationMissing => FlagEvaluationCode::ConfigurationMissing,
        EvaluationFailure::FlagUnrecognizedOrDisabled => FlagEvaluationCode::FlagUnrecognizedOrDisabled,
        EvaluationFailure::FlagDisabled => FlagEvaluationCode::FlagUnrecognizedOrDisabled,
        EvaluationFailure::DefaultAllocationNull => FlagEvaluationCode::DefaultAllocationNull,
        EvaluationFailure::NonBanditVariation => FlagEvaluationCode::AssignmentError,
        EvaluationFailure::NoActionsSuppliedForBandit => FlagEvaluationCode::AssignmentError,
        EvaluationFailure::Error(e) => match e {
            EvaluationError::TypeMismatch { .. } => FlagEvaluationCode::TypeMismatch,
            _ => FlagEvaluationCode::AssignmentError,
        },
    }
}

/// The code recorded for allocation `k`: allocations after the first
/// match are unevaluated; the others carry their own outcome.
pub open spec fn allocation_code(
    allocs: Seq<crate::ufc::Allocation>,
    subject: Seq<char>,
    attrs: &Attributes,
    now: int,
    total_shards: u64,
    k: int,
) -> EvalAllocationResult {
    let first = first_allocation_match_from(allocs, subject, attrs, now, total_shards, 0);
    let own = match allocation_outcome(allocs[k], subject, attrs, now, total_shards) {
        AllocOutcome::Matched(_) => EvalAllocationResult::Matched,
        AllocOutcome::BeforeStartDate => EvalAllocationResult::BeforeStartDate,
        AllocOutcome::AfterEndDate => EvalAllocationResult::AfterEndDate,
        AllocOutcome::FailingRule => EvalAllocationResult::FailingRules,
        AllocOutcome::TrafficExposureMiss => EvalAllocationResult::TrafficExposureMiss,
    };
    match first {
        Some((ai, _)) => if k <= ai {
            own
        } else {
            EvalAllocationResult::Unevaluated
        },
        None => own,
    }
}

/// Records rule and condition evaluations of one allocation: one row per
/// rule, in order, whose matched bits are exactly what the rule evaluator
/// decides, with one row per condition inside.
#[verifier::loop_isolation(false)]
fn record_rules(
    a: &crate::ufc::Allocation,
    attrs: &Attributes,
    subject_key: &str,
) -> (r: Vec<EvalRuleDetails>)
    ensures
        r@.len() == a.rules@.len(),
        forall|i: int|
            0 <= i < r@.len() ==> (#[trigger] r@[i]).matched == crate::rules::rule_matches(
                a.rules@[i],
                attrs,
                subject_key@,
            ) && r@[i].conditions@.len() == a.rules@[i].conditions@.len(),
        forall|i: int, j: int|
            0 <= i < r@.len() && 0 <= j < r@[i].conditions@.len()
                ==> (#[trigger] r@[i].conditions@[j]).matched == crate::rules::condition_matches(
                a.rules@[i].conditions@[j],
                attrs,
                subject_key@,
            ),
{
    let mut out: Vec<EvalRuleDetails> = Vec::new();
    let n = a.rules.len();
    let mut i: usize = 0;
    while i < n
        invariant
            0 <= i <= n,
            out@.len() == i,
            forall|k: int|
                0 <= k < i ==> (#[trigger] out@[k]).matched == crate::rules::rule_matches(
                    a.rules@[k],
                    attrs,
                    subject_key@,
                ) && out@[k].conditions@.len() == a.rules@[k].conditions@.len(),
            forall|k: int, j: int|
                0 <= k < i && 0 <= j < out@[k].conditions@.len()
                    ==> (#[trigger] out@[k].conditions@[j]).matched
                    == crate::rules::condition_matches(
                    a.rules@[k].conditions@[j],
                    attrs,
                    subject_key@,
                ),
        decreases n - i,
    {
        let rule = &a.rules[i];
        let mut conditions: Vec<EvalConditionDetails> = Vec::new();
        let m = rule.conditions.len();
        let mut j: usize = 0;
        while j < m
            invariant
                0 <= j <= m == rule.conditions@.len(),
                conditions@.len() == j,
                forall|l: int|
                    0 <= l < j ==> (#[trigger] conditions@[l]).matched
                        == crate::rules::condition_matches(
                        rule.conditions@[l],
                        attrs,
                        subject_key@,
                    ),
            decreases m - j,
        {
            let c = &rule.conditions[j];
            let matched = crate::rules::eval_condition(c, attrs, subject_key);
            let attribute_value = match attrs.get(c.attribute.as_str()) {
                Some(v) => Some(v.duplicate()),
                None => None,
            };
            conditions.push(
                EvalConditionDetails { condition: c.clone(), attribute_value, matched },
            );
            j = j + 1;
        }
        let matched = crate::rules::eval_rule(rule, attrs, subject_key);
        out.push(EvalRuleDetails { matched, conditions });
        i = i + 1;
    }
    out
}

/// Records split and shard evaluations of one allocation: one row per
/// split, in order, whose matched bits and shard values are exactly what
/// the split and shard evaluators decide.
#[verifier::loop_isolation(false)]
fn record_splits(
    a: &crate::ufc::Allocation,
    subject_key: &str,
    total_shards: u64,
) -> (r: Vec<EvalSplitDetails>)
    requires
        total_shards > 0,
    ensures
        r@.len() == a.splits@.len(),
        forall|i: int|
            0 <= i < r@.len() ==> (#[trigger] r@[i]).matched == crate::ufc::split_matches(
                a.splits@[i],
                subject_key@,
                total_shards,
            ) && r@[i].variation_key@ == a.splits@[i].variation_key@ && r@[i].shards@.len()
                == a.splits@[i].shards@.len(),
        forall|i: int, j: int|
            0 <= i < r@.len() && 0 <= j < r@[i].shards@.len()
                ==> (#[trigger] r@[i].shards@[j]).matched == crate::ufc::shard_matches(
                a.splits@[i].shards@[j],
                subject_key@,
                total_shards,
            ) && r@[i].shards@[j].shard_value == crate::sharder::shard_value(
                crate::ufc::shard_input(a.splits@[i].shards@[j].salt@, subject_key@),
                total_shards,
            ),
{
    let mut out: Vec<EvalSplitDetails> = Vec::new();
    let n = a.splits.len();
    let mut i: usize = 0;
    while i < n
        invariant
            0 <= i <= n,
            out@.len() == i,
            forall|k: int|
                0 <= k < i ==> (#[trigger] out@[k]).matched == crate::ufc::split_matches(
                    a.splits@[k],
                    subject_key@,
                    total_shards,
                ) && out@[k].variation_key@ == a.splits@[k].variation_key@ && out@[k].shards@.len()
                    == a.splits@[k].shards@.len(),
            forall|k: int, j: int|
                0 <= k < i && 0 <= j < out@[k].shards@.len()
                    ==> (#[trigger] out@[k].shards@[j]).matched == crate::ufc::shard_matches(
                    a.splits@[k].shards@[j],
                    subject_key@,
                    total_shards,
                ) && out@[k].shards@[j].shard_value == crate::sharder::shard_value(
                    crate::ufc::shard_input(a.splits@[k].shards@[j].salt@, subject_key@),
                    total_shards,
                ),
        decreases n - i,
    {
        let split = &a.splits[i];
        let mut shards: Vec<EvalShardDetails> = Vec::new();
        let m = split.shards.len();
        let mut j: usize = 0;
        while j < m
            invariant
                0 <= j <= m == split.shards@.len(),
                shards@.len() == j,
                forall|l: int|
                    0 <= l < j ==> (#[trigger] shards@[l]).matched == crate::ufc::shard_matches(
                        split.shards@[l],
                        subject_key@,
                        total_shards,
                    ) && shards@[l].shard_value == crate::sharder::shard_value(
                        crate::ufc::shard_input(split.shards@[l].salt@, subject_key@),
                        total_shards,
                    ),
            decreases m - j,
        {
            let shard = &split.shards[j];
            let mut parts: Vec<String> = Vec::new();
            parts.push(String::from_str(shard.salt.as_str()));
            parts.push(String::from_str("-"));
            parts.push(String::from_str(subject_key));
            proof {
                reveal_with_fuel(crate::sharder::concat_parts, 5);
                assert(parts@.drop_last() =~= parts@.take(2));
                assert(parts@.take(2).drop_last() =~= parts@.take(1));
                assert(parts@.take(1).drop_last() =~= parts@.take(0));
                assert(parts@.take(0) =~= Seq::<String>::empty());
                assert(crate::sharder::concat_parts(parts@) =~= crate::ufc::shard_input(
                    shard.salt@,
                    subject_key@,
                ));
            }
            let value = crate::sharder::get_md5_shard(&parts, total_shards);
            let matched = shard.matches(subject_key, total_shards);
            shards.push(EvalShardDetails { matched, shard: shard.clone(), shard_value: value });
            j = j + 1;
        }
        let matched = split.matches(subject_key, total_shards);
        out.push(
            EvalSplitDetails {
                variation_key: String::from_str(split.variation_key.as_str()),
                matched,
                shards,
            },
        );
        i = i + 1;
    }
    out
}

/// What the record of one flag evaluation must say: it echoes the
/// inputs, lists every allocation of a found flag with the code the
/// evaluator decided (all unevaluated when the flag is disabled or of the
/// wrong type), and its outcome fields restate exactly what the plain
/// evaluator returns for the same inputs.
pub open spec fn details_record_ok(
    record: &EvalFlagDetails,
    configuration: Option<&Configuration>,
    flag_key: Seq<char>,
    subject_key: Seq<char>,
    subject_attributes: &Attributes,
    expected_type: Option<crate::ufc::VariationType>,
    now: int,
) -> bool {
    &&& record.flag_key@ == flag_key
    &&& record.subject_key@ == subject_key
    &&& crate::events::attrs_content(&record.subject_attributes) == crate::events::attrs_content(
        subject_attributes,
    )
    &&& record.timestamp == now
    &&& (record.configuration_details is Some <==> configuration is Some)
    &&& ({
        // the per-allocation record: all allocations of the flag, in
        // order, each with the code the evaluator decided
        match configuration {
            None => record.allocations@.len() == 0,
            Some(config) => match config.flags.spec_get_flag(flag_key) {
                Some(TryParse::Parsed(flag)) => {
                    let type_ok = match expected_type {
                        Some(ty) => ty == flag.variation_type,
                        None => true,
                    };
                    if flag.enabled && type_ok {
                        &&& record.allocations@.len() == flag.allocations@.len()
                        &&& forall|j: int|
                            0 <= j < flag.allocations@.len() ==> (#[trigger] record.allocations@[j]).key@
                                == flag.allocations@[j].key@ && record.allocations@[j].result
                                == allocation_code(
                                flag.allocations@,
                                subject_key,
                                subject_attributes,
                                now,
                                flag.total_shards,
                                j,
                            )
                    } else {
                        // a found flag that is disabled or of the wrong
                        // type still lists every allocation, each
                        // unevaluated
                        &&& record.allocations@.len() == flag.allocations@.len()
                        &&& forall|j: int|
                            0 <= j < flag.allocations@.len() ==> (#[trigger] record.allocations@[j]).key@
                                == flag.allocations@[j].key@ && record.allocations@[j].result
                                == EvalAllocationResult::Unevaluated
                    }
                },
                _ => record.allocations@.len() == 0,
            },
        }
    })
    &&& ({
        match configuration {
            None => record.flag_evaluation_code == FlagEvaluationCode::ConfigurationMissing
                && record.result is None,
            Some(config) => {
                match flag_eval_result(
                    &config.flags,
                    flag_key,
                    subject_key,
                    subject_attributes,
                    expected_type,
                    now,
                ) {
                    FlagEvalSpec::Failure(f) => record.flag_evaluation_code == failure_code(f)
                        && record.result is None,
                    FlagEvalSpec::Matched(ai, si) => {
                        let flag = config.flags.spec_get_flag(flag_key)->Some_0->Parsed_0;
                        &&& record.flag_evaluation_code == FlagEvaluationCode::Match
                        &&& record.result matches Some(v) && Some(v@) == crate::ufc::coerce_value(
                            flag.spec_get_variation(
                                flag.allocations@[ai].splits@[si].variation_key@,
                            )->Some_0.value@,
                            flag.variation_type,
                        )
                        &&& record.variation_key matches Some(k) && k@
                            == flag.allocations@[ai].splits@[si].variation_key@
                    },
                }
            },
        }
    })
}

/// Evaluates a flag and records every step. The recorded outcome code,
/// result and allocation codes restate exactly what the plain evaluator
/// decides for the same inputs: recording never changes the outcome.
#[verifier::loop_isolation(false)]
pub fn get_assignment_details(
    configuration: Option<&Configuration>,
    flag_key: &str,
    subject_key: &str,
    subject_attributes: &Attributes,
    expected_type: Option<crate::ufc::VariationType>,
    now: Timestamp,
    meta: &EventMetaData,
) -> (r: (EvalFlagDetails, Option<AssignmentEvent>))
    requires
        configuration matches Some(c) ==> c.flags.well_formed(),
    ensures
        details_record_ok(
            &r.0,
            configuration,
            flag_key@,
            subject_key@,
            subject_attributes,
            expected_type,
            now as int,
        ),
        ({
            // a returned event carries the returned record
            match r.1 {
                Some(e) => e.evaluation_details matches Some(d) && same_details_content(
                    &d,
                    &r.0,
                ),
                None => true,
            }
        }),
        ({
            // an event comes back exactly when the evaluation matched a
            // logging allocation
            match configuration {
                None => r.1 is None,
                Some(config) => {
                    match flag_eval_result(
                        &config.flags,
                        flag_key@,
                        subject_key@,
                        subject_attributes,
                        expected_type,
                        now as int,
                    ) {
                        FlagEvalSpec::Failure(_) => r.1 is None,
                        FlagEvalSpec::Matched(ai, si) => {
                            let flag = config.flags.spec_get_flag(flag_key@)->Some_0->Parsed_0;
                            if flag.allocations@[ai].do_log {
                                r.1 matches Some(e) && e@ == crate::eval_assignment::expected_event(
                                    flag,
                                    ai,
                                    si,
                                    subject_key@,
                                    subject_attributes,
                                    now as int,
                                    meta@,
                                )
                            } else {
                                r.1 is None
                            }
                        },
                    }
                },
            }
        }),
{
    let assignment = get_assignment(
        configuration,
        flag_key,
        subject_key,
        subject_attributes,
        expected_type,
        now,
        meta,
    );
    let config = match configuration {
        Some(c) => c,
        None => {
            let details = EvalFlagDetails {
                flag_key: String::from_str(flag_key),
                subject_key: String::from_str(subject_key),
                subject_attributes: subject_attributes.duplicate(),
                timestamp: now,
                configuration_details: None,
                flag_evaluation_code: FlagEvaluationCode::ConfigurationMissing,
                result: None,
                variation_key: None,
                variation_value: None,
                allocations: Vec::new(),
            };
            return (details, None);
        },
    };
    let configuration_details = Some(
        ConfigurationDetails {
            fetched_at: config.fetched_at,
            published_at: config.flags.created_at,
            environment_name: String::from_str(config.flags.environment_name.as_str()),
        },
    );
    let flag = match config.flags.get_flag(flag_key) {
        Ok(f) => f,
        Err(e) => {
            let code = match e {
                EvaluationFailure::FlagUnrecognizedOrDisabled => FlagEvaluationCode::FlagUnrecognizedOrDisabled,
                _ => FlagEvaluationCode::AssignmentError,
            };
            let details = EvalFlagDetails {
                flag_key: String::from_str(flag_key),
                subject_key: String::from_str(subject_key),
                subject_attributes: subject_attributes.duplicate(),
                timestamp: now,
                configuration_details,
                flag_evaluation_code: code,
                result: None,
                variation_key: None,
                variation_value: None,
                allocations: Vec::new(),
            };
            return (details, None);
        },
    };
    proof {
        lemma_lookup_well_formed(&config.flags, flag_key@);
    }
    // record per-allocation outcomes; allocations after the first match
    // stay unevaluated, as do all of them when the flag is disabled or
    // the type does not match
    let type_ok = match expected_type {
        Some(ty) => flag.variation_type == ty,
        None => true,
    };
    let mut allocations: Vec<EvalAllocationDetails> = Vec::new();
    let ghost allocs = flag.allocations@;
    let mut matched_split: Option<(usize, &crate::ufc::Split)> = None;
    let ghost mut msi: int = 0;
    if flag.enabled && type_ok {
        let n = flag.allocations.len();
        let mut k: usize = 0;
        while k < n
            invariant
                0 <= k <= n == allocs.len(),
                allocations@.len() == k,
                forall|j: int|
                    0 <= j < k ==> (#[trigger] allocations@[j]).key@ == allocs[j].key@,
                match matched_split {
                    None => (forall|j: int|
                        0 <= j < k ==> !(allocation_outcome(
                            #[trigger] allocs[j],
                            subject_key@,
                            subject_attributes,
                            now as int,
                            flag.total_shards,
                        ) matches AllocOutcome::Matched(_))) && (forall|j: int|
                        0 <= j < k ==> (#[trigger] allocations@[j]).result == allocation_code(
                            allocs,
                            subject_key@,
                            subject_attributes,
                            now as int,
                            flag.total_shards,
                            j,
                        )),
                    Some((mi, s)) => {
                        &&& 0 <= mi < k
                        &&& first_allocation_match_from(
                            allocs,
                            subject_key@,
                            subject_attributes,
                            now as int,
                            flag.total_shards,
                            0,
                        ) == Some((mi as int, msi))
                        &&& *s == allocs[mi as int].splits@[msi]
                        &&& 0 <= msi < allocs[mi as int].splits@.len()
                        &&& forall|j: int|
                            0 <= j < k ==> (#[trigger] allocations@[j]).result
                                == allocation_code(
                                allocs,
                                subject_key@,
                                subject_attributes,
                                now as int,
                                flag.total_shards,
                                j,
                            )
                    },
                },
            decreases n - k,
        {
            let a = &flag.allocations[k];
            match matched_split {
                Some(_) => {
                    allocations.push(
                        EvalAllocationDetails {
                            key: String::from_str(a.key.as_str()),
                            result: EvalAllocationResult::Unevaluated,
                            evaluated_rules: Vec::new(),
                            evaluated_splits: Vec::new(),
                        },
                    );
                },
                None => {
                    let time_ok = a.is_allowed_by_time(now);
                    let evaluated_rules = if time_ok {
                        record_rules(a, subject_attributes, subject_key)
                    } else {
                        Vec::new()
                    };
                    match a.get_matching_split(
                        subject_key,
                        subject_attributes,
                        flag.total_shards,
                        now,
                    ) {
                        Ok(split) => {
                            proof {
                                lemma_first_alloc_from(
                                    allocs,
                                    subject_key@,
                                    subject_attributes,
                                    now as int,
                                    flag.total_shards,
                                    k as int,
                                );
                                msi = crate::eval_assignment::first_matching_split_from(
                                    allocs[k as int].splits@,
                                    subject_key@,
                                    flag.total_shards,
                                    0,
                                )->Some_0;
                            }
                            let evaluated_splits = record_splits(
                                a,
                                subject_key,
                                flag.total_shards,
                            );
                            allocations.push(
                                EvalAllocationDetails {
                                    key: String::from_str(a.key.as_str()),
                                    result: EvalAllocationResult::Matched,
                                    evaluated_rules,
                                    evaluated_splits,
                                },
                            );
                            matched_split = Some((k, split));
                        },
                        Err(reason) => {
                            proof {
                                lemma_first_alloc_from(
                                    allocs,
                                    subject_key@,
                                    subject_attributes,
                                    now as int,
                                    flag.total_shards,
                                    k as int,
                                );
                                crate::eval_assignment::lemma_first_alloc_range(
                                    allocs,
                                    subject_key@,
                                    subject_attributes,
                                    now as int,
                                    flag.total_shards,
                                    k + 1,
                                );
                            }
                            let code = match reason {
                                AllocationNonMatchReason::BeforeStartDate => EvalAllocationResult::BeforeStartDate,
                                AllocationNonMatchReason::AfterEndDate => EvalAllocationResult::AfterEndDate,
                                AllocationNonMatchReason::FailingRule => EvalAllocationResult::FailingRules,
                                AllocationNonMatchReason::TrafficExposureMiss => EvalAllocationResult::TrafficExposureMiss,
                            };
                            let evaluated_splits = match reason {
                                AllocationNonMatchReason::TrafficExposureMiss => record_splits(
                                    a,
                                    subject_key,
                                    flag.total_shards,
                                ),
                                _ => Vec::new(),
                            };
                            allocations.push(
                                EvalAllocationDetails {
                                    key: String::from_str(a.key.as_str()),
                                    result: code,
                                    evaluated_rules,
                                    evaluated_splits,
                                },
                            );
                        },
                    }
                },
            }
            k = k + 1;
        }
        proof {
            if matched_split is None {
                lemma_first_alloc_from(
                    allocs,
                    subject_key@,
                    subject_attributes,
                    now as int,
                    flag.total_shards,
                    n as int,
                );
            }
        }
    }
    if !(flag.enabled && type_ok) {
        // the flag was found but not evaluated: record every allocation
        // as unevaluated
        let n = flag.allocations.len();
        let mut k: usize = 0;
        while k < n
            invariant
                0 <= k <= n == allocs.len(),
                allocations@.len() == k,
                forall|j: int|
                    0 <= j < k ==> (#[trigger] allocations@[j]).key@ == allocs[j].key@
                        && allocations@[j].result == EvalAllocationResult::Unevaluated,
            decreases n - k,
        {
            allocations.push(
                EvalAllocationDetails {
                    key: String::from_str(flag.allocations[k].key.as_str()),
                    result: EvalAllocationResult::Unevaluated,
                    evaluated_rules: Vec::new(),
                    evaluated_splits: Vec::new(),
                },
            );
            k = k + 1;
        }
    }
    // combine the record with the evaluation result
    let (code, result, variation_key, variation_value, event) = match assignment {
        Ok(Some(a)) => {
            let (vk, vv) = match &matched_split {
                Some((_, split)) => {
                    let vk = String::from_str(split.variation_key.as_str());
                    let vv = match flag.get_variation(split.variation_key.as_str()) {
                        Some(v) => Some(v.value.duplicate()),
                        None => None,
                    };
                    (Some(vk), vv)
                },
                None => (None, None),
            };
            (FlagEvaluationCode::Match, Some(a.value.duplicate()), vk, vv, a.event)
        },
        Ok(None) => {
            let code = if !flag.enabled {
                FlagEvaluationCode::FlagUnrecognizedOrDisabled
            } else {
                FlagEvaluationCode::DefaultAllocationNull
            };
            (code, None, None, None, None)
        },
        Err(e) => {
            let code = match e {
                EvaluationError::TypeMismatch { .. } => FlagEvaluationCode::TypeMismatch,
                _ => FlagEvaluationCode::AssignmentError,
            };
            (code, None, None, None, None)
        },
    };
    let mut details = EvalFlagDetails {
        flag_key: String::from_str(flag_key),
        subject_key: String::from_str(subject_key),
        subject_attributes: subject_attributes.duplicate(),
        timestamp: now,
        configuration_details,
        flag_evaluation_code: code,
        result,
        variation_key,
        variation_value,
        allocations,
    };
    let event = match event {
        Some(mut e) => {
            e.evaluation_details = Some(details.duplicate());
            Some(e)
        },
        None => None,
    };
    (details, event)
}

} // verus!
