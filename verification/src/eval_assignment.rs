//! The flag evaluator.
//!
//! Evaluation walks a flag's allocations in order. An allocation is
//! skipped when the clock is outside its time window, when none of its
//! rules matches, or when no split's shards cover the subject; the first
//! allocation with a matching split decides the assignment. The selected
//! variation is coerced to the flag's type, and an assignment event is
//! emitted when the allocation asks for logging. The whole outcome is a
//! function of the snapshot, the subject, its attributes and the clock
//! reading — nothing else.

use vstd::prelude::*;
use vstd::string::*;

use crate::attributes::Attributes;
use crate::configuration::Configuration;
use crate::events::{attrs_content, duplicate_string_pairs, AssignmentEvent, AssignmentEventV,
    EventMetaData, EventMetaDataV};
use crate::rules::rule_matches;
use crate::ufc::{coerce_value, split_matches, Allocation, AssignmentValue, Flag, Split, Timestamp,
    TryParse, UniversalFlagConfig, VariationType};

verus! {

/// A user-visible evaluation error.
#[derive(Debug, Clone, Copy, PartialEq, Eq, Structural)]
pub enum EvaluationError {
    /// A flag in the snapshot failed to decode.
    UnexpectedConfigurationParseError,
    /// The caller expected a different variation type.
    TypeMismatch { expected: VariationType, found: VariationType },
    /// The snapshot is internally inconsistent (a split names a missing or
    /// ill-typed variation).
    UnexpectedConfigurationError,
}

/// Why an evaluation produced no assignment. Only the `Error` variants are
/// surfaced to callers; the others collapse to "no assignment".
#[derive(Debug, Clone, Copy, PartialEq, Eq, Structural)]
pub enum EvaluationFailure {
    ConfigurationMissing,
    FlagUnrecognizedOrDisabled,
    FlagDisabled,
    DefaultAllocationNull,
    NonBanditVariation,
    NoActionsSuppliedForBandit,
    Error(EvaluationError),
}

/// Why an allocation did not match.
#[derive(Debug, Clone, Copy, PartialEq, Eq, PartialOrd, Ord, Hash, Structural)]
pub enum AllocationNonMatchReason {
    BeforeStartDate,
    AfterEndDate,
    FailingRule,
    TrafficExposureMiss,
}

/// The user-facing evaluation error, as foreign-language wrappers report
/// it.
#[derive(Debug, Clone, Copy, PartialEq, Eq, Structural)]
pub enum FlagEvaluationError {
    /// Configuration has not been fetched yet.
    ConfigurationMissing,
    /// The requested flag was not found, or is disabled.
    FlagNotFound,
    /// The flag has a different variation type than requested.
    InvalidType { expected: VariationType, found: VariationType },
    /// A flag in the snapshot failed to decode.
    ConfigurationParseError,
    /// The snapshot is internally inconsistent.
    ConfigurationError,
}

/// The user-facing error reported for an evaluation failure; the silent
/// non-matches report none.
pub fn flag_evaluation_error(failure: EvaluationFailure) -> (r: Option<FlagEvaluationError>)
    ensures
        r == match failure {
            EvaluationFailure::ConfigurationMissing => Some(
                FlagEvaluationError::ConfigurationMissing,
            ),
            EvaluationFailure::FlagUnrecognizedOrDisabled => Some(
                FlagEvaluationError::FlagNotFound,
            ),
            EvaluationFailure::FlagDisabled => Some(FlagEvaluationError::FlagNotFound),
            EvaluationFailure::Error(EvaluationError::UnexpectedConfigurationParseError) => Some(
                FlagEvaluationError::ConfigurationParseError,
            ),
            EvaluationFailure::Error(
                EvaluationError::TypeMismatch { expected, found },
            ) => Some(FlagEvaluationError::InvalidType { expected, found }),
            EvaluationFailure::Error(EvaluationError::UnexpectedConfigurationError) => Some(
                FlagEvaluationError::ConfigurationError,
            ),
            _ => None,
        },
{
    match failure {
        EvaluationFailure::ConfigurationMissing => Some(
            FlagEvaluationError::ConfigurationMissing,
        ),
        EvaluationFailure::FlagUnrecognizedOrDisabled | EvaluationFailure::FlagDisabled => Some(
            FlagEvaluationError::FlagNotFound,
        ),
        EvaluationFailure::Error(EvaluationError::UnexpectedConfigurationParseError) => Some(
            FlagEvaluationError::ConfigurationParseError,
        ),
        EvaluationFailure::Error(EvaluationError::TypeMismatch { expected, found }) => Some(
            FlagEvaluationError::InvalidType { expected, found },
        ),
        EvaluationFailure::Error(EvaluationError::UnexpectedConfigurationError) => Some(
            FlagEvaluationError::ConfigurationError,
        ),
        EvaluationFailure::DefaultAllocationNull
        | EvaluationFailure::NonBanditVariation
        | EvaluationFailure::NoActionsSuppliedForBandit => None,
    }
}

/// An assignment: the variation value, and the event to log if the
/// allocation asks for logging.
#[derive(Debug, Clone, PartialEq)]
pub struct Assignment {
    pub value: AssignmentValue,
    pub event: Option<AssignmentEvent>,
}

/// An allocation's outcome: the index of the first matching split, or the
/// reason none matched.
pub enum AllocOutcome {
    Matched(int),
    BeforeStartDate,
    AfterEndDate,
    FailingRule,
    TrafficExposureMiss,
}

/// An allocation's rules allow a subject when it has no rules or some rule
/// matches.
pub open spec fn rules_allow(a: Allocation, attrs: &Attributes, subject: Seq<char>) -> bool {
    a.rules@.len() == 0 || exists|i: int|
        0 <= i < a.rules@.len() && #[trigger] rule_matches(a.rules@[i], attrs, subject)
}

/// The first split from index `i` on that the subject matches.
pub open spec fn first_matching_split_from(
    splits: Seq<Split>,
    subject: Seq<char>,
    total_shards: u64,
    i: int,
) -> Option<int>
    decreases splits.len() - i when 0 <= i <= splits.len()
{
    if i >= splits.len() {
        None
    } else if split_matches(splits[i], subject, total_shards) {
        Some(i)
    } else {
        first_matching_split_from(splits, subject, total_shards, i + 1)
    }
}

/// The outcome of one allocation for a subject at time `now`.
pub open spec fn allocation_outcome(
    a: Allocation,
    subject: Seq<char>,
    attrs: &Attributes,
    now: int,
    total_shards: u64,
) -> AllocOutcome {
    if a.start_at matches Some(t) && now < t {
        AllocOutcome::BeforeStartDate
    } else if a.end_at matches Some(t) && now > t {
        AllocOutcome::AfterEndDate
    } else if !rules_allow(a, attrs, subject) {
        AllocOutcome::FailingRule
    } else {
        match first_matching_split_from(a.splits@, subject, total_shards, 0) {
            Some(si) => AllocOutcome::Matched(si),
            None => AllocOutcome::TrafficExposureMiss,
        }
    }
}

/// The first allocation from index `i` on that matches, with its matching
/// split index.
pub open spec fn first_allocation_match_from(
    allocs: Seq<Allocation>,
    subject: Seq<char>,
    attrs: &Attributes,
    now: int,
    total_shards: u64,
    i: int,
) -> Option<(int, int)>
    decreases allocs.len() - i when 0 <= i <= allocs.len()
{
    if i >= allocs.len() {
        None
    } else {
        match allocation_outcome(allocs[i], subject, attrs, now, total_shards) {
            AllocOutcome::Matched(si) => Some((i, si)),
            _ => first_allocation_match_from(allocs, subject, attrs, now, total_shards, i + 1),
        }
    }
}

/// A flag's outcome: disabled, no allocation matched, the matched split
/// names a missing or ill-typed variation, or a proper match.
pub enum FlagOutcome {
    Disabled,
    NoMatch,
    Broken(int, int),
    Matched(int, int),
}

pub open spec fn flag_outcome(f: Flag, subject: Seq<char>, attrs: &Attributes, now: int) -> FlagOutcome {
    if !f.enabled {
        FlagOutcome::Disabled
    } else {
        match first_allocation_match_from(f.allocations@, subject, attrs, now, f.total_shards, 0) {
            None => FlagOutcome::NoMatch,
            Some((ai, si)) => {
                let split = f.allocations@[ai].splits@[si];
                match f.spec_get_variation(split.variation_key@) {
                    None => FlagOutcome::Broken(ai, si),
                    Some(v) => match coerce_value(v.value@, f.variation_type) {
                        None => FlagOutcome::Broken(ai, si),
                        Some(_) => FlagOutcome::Matched(ai, si),
                    },
                }
            },
        }
    }
}

/// The event emitted for a match of allocation `ai`, split `si`: the
/// experiment is `{flag}-{allocation}`, the attributes are the caller's
/// un-augmented ones, the timestamp is the evaluation clock reading.
pub open spec fn expected_event(
    f: Flag,
    ai: int,
    si: int,
    subject: Seq<char>,
    attrs: &Attributes,
    now: int,
    meta: EventMetaDataV,
) -> AssignmentEventV {
    let alloc = f.allocations@[ai];
    let split = alloc.splits@[si];
    let variation = f.spec_get_variation(split.variation_key@)->Some_0;
    AssignmentEventV {
        feature_flag: f.key@,
        allocation: alloc.key@,
        experiment: f.key@ + "-"@ + alloc.key@,
        variation: variation.key@,
        subject: subject,
        subject_attributes: attrs_content(attrs),
        timestamp: now,
        meta_data: meta,
        extra_logging: split.extra_logging@.map_values(|p: (String, String)| (p.0@, p.1@)),
    }
}

/// What a returned assignment must be for a match of allocation `ai`,
/// split `si`: the coerced variation value, and the expected event exactly
/// when the allocation logs.
pub open spec fn assignment_matches(
    a: Assignment,
    f: Flag,
    ai: int,
    si: int,
    subject: Seq<char>,
    attrs: &Attributes,
    now: int,
    meta: EventMetaDataV,
) -> bool {
    let alloc = f.allocations@[ai];
    let split = alloc.splits@[si];
    let variation = f.spec_get_variation(split.variation_key@)->Some_0;
    &&& coerce_value(variation.value@, f.variation_type) == Some(a.value@)
    &&& (if alloc.do_log {
        a.event matches Some(e) && e@ == expected_event(f, ai, si, subject, attrs, now, meta)
    } else {
        a.event is None
    })
}

/// The outcome of evaluating a flag table entry.
pub enum FlagEvalSpec {
    Failure(EvaluationFailure),
    Matched(int, int),
}

/// The full evaluation outcome for a flag key against a flag table.
pub open spec fn flag_eval_result(
    flags: &UniversalFlagConfig,
    flag_key: Seq<char>,
    subject: Seq<char>,
    attrs: &Attributes,
    expected_type: Option<VariationType>,
    now: int,
) -> FlagEvalSpec {
    match flags.spec_get_flag(flag_key) {
        None => FlagEvalSpec::Failure(EvaluationFailure::FlagUnrecognizedOrDisabled),
        Some(TryParse::ParseFailed) => FlagEvalSpec::Failure(
            EvaluationFailure::Error(EvaluationError::UnexpectedConfigurationParseError),
        ),
        Some(TryParse::Parsed(flag)) => {
            let type_ok = match expected_type {
                Some(ty) => ty == flag.variation_type,
                None => true,
            };
            if !type_ok {
                FlagEvalSpec::Failure(
                    EvaluationFailure::Error(
                        EvaluationError::TypeMismatch {
                            expected: expected_type->Some_0,
                            found: flag.variation_type,
                        },
                    ),
                )
            } else {
                match flag_outcome(flag, subject, attrs, now) {
                    FlagOutcome::Disabled => FlagEvalSpec::Failure(EvaluationFailure::FlagDisabled),
                    FlagOutcome::NoMatch => FlagEvalSpec::Failure(
                        EvaluationFailure::DefaultAllocationNull,
                    ),
                    FlagOutcome::Broken(_, _) => FlagEvalSpec::Failure(
                        EvaluationFailure::Error(EvaluationError::UnexpectedConfigurationError),
                    ),
                    FlagOutcome::Matched(ai, si) => FlagEvalSpec::Matched(ai, si),
                }
            }
        },
    }
}

proof fn lemma_first_split_from(splits: Seq<Split>, subject: Seq<char>, total_shards: u64, i: int)
    requires
        0 <= i <= splits.len(),
        forall|k: int| 0 <= k < i ==> !split_matches(#[trigger] splits[k], subject, total_shards),
    ensures
        first_matching_split_from(splits, subject, total_shards, 0) == first_matching_split_from(
            splits,
            subject,
            total_shards,
            i,
        ),
    decreases i,
{
    if i > 0 {
        lemma_first_split_from(splits, subject, total_shards, i - 1);
    }
}

pub(crate) proof fn lemma_first_alloc_from(
    allocs: Seq<Allocation>,
    subject: Seq<char>,
    attrs: &Attributes,
    now: int,
    total_shards: u64,
    i: int,
)
    requires
        0 <= i <= allocs.len(),
        forall|k: int|
            0 <= k < i ==> !(allocation_outcome(
                #[trigger] allocs[k],
                subject,
                attrs,
                now,
                total_shards,
            ) matches AllocOutcome::Matched(_)),
    ensures
        first_allocation_match_from(allocs, subject, attrs, now, total_shards, 0)
            == first_allocation_match_from(allocs, subject, attrs, now, total_shards, i),
    decreases i,
{
    if i > 0 {
        lemma_first_alloc_from(allocs, subject, attrs, now, total_shards, i - 1);
    }
}

/// A first allocation match lies in the scanned range.
pub(crate) proof fn lemma_first_alloc_range(
    allocs: Seq<Allocation>,
    subject: Seq<char>,
    attrs: &Attributes,
    now: int,
    total_shards: u64,
    i: int,
)
    requires
        0 <= i <= allocs.len(),
    ensures
        first_allocation_match_from(allocs, subject, attrs, now, total_shards, i) matches Some(
            p,
        ) ==> i <= p.0 < allocs.len(),
    decreases allocs.len() - i,
{
    if i < allocs.len() {
        lemma_first_alloc_range(allocs, subject, attrs, now, total_shards, i + 1);
    }
}

impl Allocation {
    /// Whether `now` is inside the allocation's time window.
    pub fn is_allowed_by_time(&self, now: Timestamp) -> (r: bool)
        ensures
            r == !((self.start_at matches Some(t) && now < t) || (self.end_at matches Some(t)
                && now > t)),
    {
        let before = match self.start_at {
            Some(t) => now < t,
            None => false,
        };
        let after = match self.end_at {
            Some(t) => now > t,
            None => false,
        };
        !(before || after)
    }

    /// Whether the allocation's rules allow the subject.
    #[verifier::loop_isolation(false)]
    pub fn is_allowed_by_rules(&self, subject_attributes: &Attributes, subject_key: &str) -> (r:
        bool)
        ensures
            r == rules_allow(*self, subject_attributes, subject_key@),
    {
        if self.rules.len() == 0 {
            return true;
        }
        let n = self.rules.len();
        let mut i: usize = 0;
        while i < n
            invariant
                0 <= i <= n == self.rules@.len(),
                forall|k: int|
                    0 <= k < i ==> !#[trigger] rule_matches(
                        self.rules@[k],
                        subject_attributes,
                        subject_key@,
                    ),
            decreases n - i,
        {
            if crate::rules::eval_rule(&self.rules[i], subject_attributes, subject_key) {
                proof {
                    assert(rule_matches(self.rules@[i as int], subject_attributes, subject_key@));
                }
                return true;
            }
            i = i + 1;
        }
        false
    }

    /// The first split the subject matches, or the reason the allocation
    /// does not apply.
    #[verifier::loop_isolation(false)]
    pub fn get_matching_split<'a>(
        &'a self,
        subject_key: &str,
        subject_attributes: &Attributes,
        total_shards: u64,
        now: Timestamp,
    ) -> (r: Result<&'a Split, AllocationNonMatchReason>)
        requires
            total_shards > 0,
        ensures
            ({
                match allocation_outcome(
                    *self,
                    subject_key@,
                    subject_attributes,
                    now as int,
                    total_shards,
                ) {
                    AllocOutcome::Matched(si) => r matches Ok(s) && 0 <= si < self.splits@.len()
                        && *s == self.splits@[si],
                    AllocOutcome::BeforeStartDate => r == Err::<&'a Split, _>(
                        AllocationNonMatchReason::BeforeStartDate,
                    ),
                    AllocOutcome::AfterEndDate => r == Err::<&'a Split, _>(
                        AllocationNonMatchReason::AfterEndDate,
                    ),
                    AllocOutcome::FailingRule => r == Err::<&'a Split, _>(
                        AllocationNonMatchReason::FailingRule,
                    ),
                    AllocOutcome::TrafficExposureMiss => r == Err::<&'a Split, _>(
                        AllocationNonMatchReason::TrafficExposureMiss,
                    ),
                }
            }),
    {
        match self.start_at {
            Some(t) => {
                if now < t {
                    return Err(AllocationNonMatchReason::BeforeStartDate);
                }
            },
            None => {},
        }
        match self.end_at {
            Some(t) => {
                if now > t {
                    return Err(AllocationNonMatchReason::AfterEndDate);
                }
            },
            None => {},
        }
        if !self.is_allowed_by_rules(subject_attributes, subject_key) {
            return Err(AllocationNonMatchReason::FailingRule);
        }
        let n = self.splits.len();
        let mut i: usize = 0;
        while i < n
            invariant
                0 <= i <= n == self.splits@.len(),
                forall|k: int|
                    0 <= k < i ==> !split_matches(
                        #[trigger] self.splits@[k],
                        subject_key@,
                        total_shards,
                    ),
            decreases n - i,
        {
            if self.splits[i].matches(subject_key, total_shards) {
                proof {
                    lemma_first_split_from(self.splits@, subject_key@, total_shards, i as int);
                }
                return Ok(&self.splits[i]);
            }
            i = i + 1;
        }
        proof {
            lemma_first_split_from(self.splits@, subject_key@, total_shards, n as int);
        }
        Err(AllocationNonMatchReason::TrafficExposureMiss)
    }
}

impl Flag {
    /// Checks that the flag's variations have the expected type.
    pub fn verify_type(&self, ty: VariationType) -> (r: Result<(), EvaluationFailure>)
        ensures
            self.variation_type == ty ==> r == Ok::<(), EvaluationFailure>(()),
            self.variation_type != ty ==> r == Err::<(), EvaluationFailure>(
                EvaluationFailure::Error(
                    EvaluationError::TypeMismatch { expected: ty, found: self.variation_type },
                ),
            ),
    {
        if self.variation_type == ty {
            Ok(())
        } else {
            Err(
                EvaluationFailure::Error(
                    EvaluationError::TypeMismatch { expected: ty, found: self.variation_type },
                ),
            )
        }
    }

    /// Evaluates the flag for a subject at time `now`.
    #[verifier::loop_isolation(false)]
    pub fn eval(
        &self,
        subject_key: &str,
        subject_attributes: &Attributes,
        now: Timestamp,
        meta: &EventMetaData,
    ) -> (r: Result<Assignment, EvaluationFailure>)
        requires
            self.total_shards > 0,
        ensures
            ({
                match flag_outcome(*self, subject_key@, subject_attributes, now as int) {
                    FlagOutcome::Disabled => r == Err::<Assignment, _>(
                        EvaluationFailure::FlagDisabled,
                    ),
                    FlagOutcome::NoMatch => r == Err::<Assignment, _>(
                        EvaluationFailure::DefaultAllocationNull,
                    ),
                    FlagOutcome::Broken(_, _) => r == Err::<Assignment, _>(
                        EvaluationFailure::Error(EvaluationError::UnexpectedConfigurationError),
                    ),
                    FlagOutcome::Matched(ai, si) => r matches Ok(a) && assignment_matches(
                        a,
                        *self,
                        ai,
                        si,
                        subject_key@,
                        subject_attributes,
                        now as int,
                        meta@,
                    ),
                }
            }),
    {
        if !self.enabled {
            return Err(EvaluationFailure::FlagDisabled);
        }
        let n = self.allocations.len();
        let mut i: usize = 0;
        while i < n
            invariant
                0 <= i <= n == self.allocations@.len(),
                forall|k: int|
                    0 <= k < i ==> !(allocation_outcome(
                        #[trigger] self.allocations@[k],
                        subject_key@,
                        subject_attributes,
                        now as int,
                        self.total_shards,
                    ) matches AllocOutcome::Matched(_)),
            decreases n - i,
        {
            let allocation = &self.allocations[i];
            match allocation.get_matching_split(
                subject_key,
                subject_attributes,
                self.total_shards,
                now,
            ) {
                Ok(split) => {
                    proof {
                        lemma_first_alloc_from(
                            self.allocations@,
                            subject_key@,
                            subject_attributes,
                            now as int,
                            self.total_shards,
                            i as int,
                        );
                    }
                    let ghost si = first_matching_split_from(
                        allocation.splits@,
                        subject_key@,
                        self.total_shards,
                        0,
                    )->Some_0;
                    let variation = match self.get_variation(split.variation_key.as_str()) {
                        Some(v) => v,
                        None => {
                            return Err(
                                EvaluationFailure::Error(
                                    EvaluationError::UnexpectedConfigurationError,
                                ),
                            );
                        },
                    };
                    let value = match variation.value.to_assignment_value(self.variation_type) {
                        Some(v) => v,
                        None => {
                            return Err(
                                EvaluationFailure::Error(
                                    EvaluationError::UnexpectedConfigurationError,
                                ),
                            );
                        },
                    };
                    let event = if allocation.do_log {
                        let mut experiment = String::from_str(self.key.as_str());
                        experiment.append("-");
                        experiment.append(allocation.key.as_str());
                        Some(
                            AssignmentEvent {
                                feature_flag: String::from_str(self.key.as_str()),
                                allocation: String::from_str(allocation.key.as_str()),
                                experiment,
                                variation: String::from_str(variation.key.as_str()),
                                subject: String::from_str(subject_key),
                                subject_attributes: subject_attributes.duplicate(),
                                timestamp: now,
                                meta_data: meta.duplicate(),
                                extra_logging: duplicate_string_pairs(&split.extra_logging),
                                evaluation_details: None,
                            },
                        )
                    } else {
                        None
                    };
                    return Ok(Assignment { value, event });
                },
                Err(_) => {},
            }
            i = i + 1;
        }
        proof {
            lemma_first_alloc_from(
                self.allocations@,
                subject_key@,
                subject_attributes,
                now as int,
                self.total_shards,
                n as int,
            );
        }
        Err(EvaluationFailure::DefaultAllocationNull)
    }
}

impl UniversalFlagConfig {
    /// The flag stored under `flag_key`, or why it cannot be used.
    pub fn get_flag<'a>(&'a self, flag_key: &str) -> (r: Result<&'a Flag, EvaluationFailure>)
        ensures
            ({
                match self.spec_get_flag(flag_key@) {
                    None => r == Err::<&'a Flag, _>(EvaluationFailure::FlagUnrecognizedOrDisabled),
                    Some(TryParse::ParseFailed) => r == Err::<&'a Flag, _>(
                        EvaluationFailure::Error(
                            EvaluationError::UnexpectedConfigurationParseError,
                        ),
                    ),
                    Some(TryParse::Parsed(flag)) => r matches Ok(f) && *f == flag,
                }
            }),
    {
        match self.lookup(flag_key) {
            None => Err(EvaluationFailure::FlagUnrecognizedOrDisabled),
            Some(TryParse::ParseFailed) => Err(
                EvaluationFailure::Error(EvaluationError::UnexpectedConfigurationParseError),
            ),
            Some(TryParse::Parsed(flag)) => Ok(flag),
        }
    }

    /// Flags are well formed when every parsed flag has a positive shard
    /// count.
    pub open spec fn well_formed(&self) -> bool {
        forall|i: int|
            0 <= i < self.flags@.len() ==> ((#[trigger] self.flags@[i].flag) matches
                TryParse::Parsed(f) ==> f.total_shards > 0)
    }

    /// Evaluates the flag stored under `flag_key`, checking the expected
    /// type first.
    pub fn eval_flag(
        &self,
        flag_key: &str,
        subject_key: &str,
        subject_attributes: &Attributes,
        expected_type: Option<VariationType>,
        now: Timestamp,
        meta: &EventMetaData,
    ) -> (r: Result<Assignment, EvaluationFailure>)
        requires
            self.well_formed(),
        ensures
            ({
                match flag_eval_result(
                    self,
                    flag_key@,
                    subject_key@,
                    subject_attributes,
                    expected_type,
                    now as int,
                ) {
                    FlagEvalSpec::Failure(f) => r == Err::<Assignment, _>(f),
                    FlagEvalSpec::Matched(ai, si) => r matches Ok(a) && assignment_matches(
                        a,
                        self.spec_get_flag(flag_key@)->Some_0->Parsed_0,
                        ai,
                        si,
                        subject_key@,
                        subject_attributes,
                        now as int,
                        meta@,
                    ),
                }
            }),
    {
        let flag = match self.get_flag(flag_key) {
            Ok(f) => f,
            Err(e) => {
                return Err(e);
            },
        };
        proof {
            lemma_lookup_well_formed(self, flag_key@);
        }
        match expected_type {
            Some(ty) => {
                match flag.verify_type(ty) {
                    Ok(()) => {},
                    Err(e) => {
                        return Err(e);
                    },
                }
            },
            None => {},
        }
        flag.eval(subject_key, subject_attributes, now, meta)
    }
}

/// A flag found in a well-formed table has a positive shard count.
pub(crate) proof fn lemma_lookup_well_formed(flags: &UniversalFlagConfig, flag_key: Seq<char>)
    requires
        flags.well_formed(),
    ensures
        flags.spec_get_flag(flag_key) matches Some(TryParse::Parsed(f)) ==> f.total_shards > 0,
{
    lemma_flags_get_parsed(flags.flags@, flag_key);
}

proof fn lemma_flags_get_parsed(entries: Seq<crate::ufc::FlagEntry>, flag_key: Seq<char>)
    requires
        forall|i: int|
            0 <= i < entries.len() ==> ((#[trigger] entries[i].flag) matches TryParse::Parsed(f)
                ==> f.total_shards > 0),
    ensures
        crate::ufc::flags_get(entries, flag_key) matches Some(TryParse::Parsed(f))
            ==> f.total_shards > 0,
    decreases entries.len(),
{
    if entries.len() > 0 {
        assert(entries[0] == entries[0]);
        assert(forall|i: int|
            0 <= i < entries.len() - 1 ==> #[trigger] entries.drop_first()[i] == entries[i + 1]);
        lemma_flags_get_parsed(entries.drop_first(), flag_key);
    }
}

/// Evaluates a flag for a subject and returns the assigned variation and
/// an optional assignment event for logging.
///
/// A missing snapshot, an unknown or disabled flag and a subject matching
/// no allocation all return `Ok(None)`; only type mismatches and snapshot
/// inconsistencies are errors.
pub fn get_assignment(
    configuration: Option<&Configuration>,
    flag_key: &str,
    subject_key: &str,
    subject_attributes: &Attributes,
    expected_type: Option<VariationType>,
    now: Timestamp,
    meta: &EventMetaData,
) -> (r: Result<Option<Assignment>, EvaluationError>)
    requires
        configuration matches Some(c) ==> c.flags.well_formed(),
    ensures
        ({
            match configuration {
                None => r == Ok::<Option<Assignment>, EvaluationError>(None),
                Some(config) => {
                    match flag_eval_result(
                        &config.flags,
                        flag_key@,
                        subject_key@,
                        subject_attributes,
                        expected_type,
                        now as int,
                    ) {
                        FlagEvalSpec::Failure(EvaluationFailure::Error(e)) => r == Err::<
                            Option<Assignment>,
                            EvaluationError,
                        >(e),
                        FlagEvalSpec::Failure(_) => r == Ok::<
                            Option<Assignment>,
                            EvaluationError,
                        >(None),
                        FlagEvalSpec::Matched(ai, si) => r matches Ok(Some(a))
                            && assignment_matches(
                            a,
                            config.flags.spec_get_flag(flag_key@)->Some_0->Parsed_0,
                            ai,
                            si,
                            subject_key@,
                            subject_attributes,
                            now as int,
                            meta@,
                        ),
                    }
                },
            }
        }),
{
    let config = match configuration {
        Some(c) => c,
        None => {
            return Ok(None);
        },
    };
    match config.flags.eval_flag(
        flag_key,
        subject_key,
        subject_attributes,
        expected_type,
        now,
        meta,
    ) {
        Ok(assignment) => Ok(Some(assignment)),
        Err(EvaluationFailure::Error(e)) => Err(e),
        Err(_) => Ok(None),
    }
}

/// Determinism: the assignment produced for a match is a function of the
/// snapshot, the subject, its attributes, the clock reading and the SDK
/// metadata — any two assignments satisfying the evaluation contract for
/// the same inputs have the same value and the same event.
pub proof fn lemma_assignment_deterministic(
    a1: Assignment,
    a2: Assignment,
    f: Flag,
    ai: int,
    si: int,
    subject: Seq<char>,
    attrs: &Attributes,
    now: int,
    meta: EventMetaDataV,
)
    requires
        assignment_matches(a1, f, ai, si, subject, attrs, now, meta),
        assignment_matches(a2, f, ai, si, subject, attrs, now, meta),
    ensures
        a1.value@ == a2.value@,
        a1.event is Some <==> a2.event is Some,
        match (a1.event, a2.event) {
            (Some(e1), Some(e2)) => e1@ == e2@,
            (None, None) => true,
            _ => false,
        },
{
}

} // verus!
