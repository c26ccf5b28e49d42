//! Cross-cutting properties of the evaluator, stated and proved once.

use vstd::prelude::*;

use crate::attributes::{augmented_get, AttrVal, Attribute, Attributes};
use crate::eval_assignment::{allocation_outcome, expected_event, first_allocation_match_from,
    flag_eval_result, flag_outcome, AllocOutcome, EvaluationError, EvaluationFailure,
    FlagEvalSpec, FlagOutcome};
use crate::events::{attrs_content, EventMetaDataV};
use crate::ufc::{Allocation, Flag, TryParse, UniversalFlagConfig, VariationType};

verus! {

proof fn lemma_entries_get_none(entries: Seq<Attribute>, name: Seq<char>)
    requires
        crate::attributes::entries_get(entries, name) is None,
    ensures
        forall|k: int| 0 <= k < entries.len() ==> (#[trigger] entries[k]).name@ != name,
    decreases entries.len(),
{
    if entries.len() > 0 {
        lemma_entries_get_none(entries.drop_first(), name);
        assert(forall|k: int|
            1 <= k < entries.len() ==> #[trigger] entries[k] == entries.drop_first()[k - 1]);
    }
}

/// Augmentation scope: when the caller's attributes lack `id`, rule
/// evaluation sees `id` bound to the subject key, while an emitted
/// event's attributes are exactly the caller's — no entry named `id`
/// among them.
pub proof fn lemma_augmentation_scope(
    attrs: &Attributes,
    subject_key: Seq<char>,
    f: Flag,
    ai: int,
    si: int,
    now: int,
    meta: EventMetaDataV,
)
    requires
        attrs.spec_get("id"@) is None,
    ensures
        augmented_get(attrs, subject_key, "id"@) == Some(AttrVal::Categorical(subject_key)),
        expected_event(f, ai, si, subject_key, attrs, now, meta).subject_attributes
            == attrs_content(attrs),
        forall|k: int|
            0 <= k < attrs_content(attrs).len() ==> (#[trigger] attrs_content(attrs)[k]).0
                != "id"@,
{
    lemma_entries_get_none(attrs.entries@, "id"@);
}

/// Allocation order: the earliest allocation that matches decides the
/// evaluation, whatever later allocations would have done.
pub proof fn lemma_allocation_order(
    allocs: Seq<Allocation>,
    subject: Seq<char>,
    attrs: &Attributes,
    now: int,
    total_shards: u64,
    i: int,
    si: int,
)
    requires
        0 <= i < allocs.len(),
        allocation_outcome(allocs[i], subject, attrs, now, total_shards) == AllocOutcome::Matched(
            si,
        ),
        forall|j: int|
            0 <= j < i ==> !(allocation_outcome(
                #[trigger] allocs[j],
                subject,
                attrs,
                now,
                total_shards,
            ) matches AllocOutcome::Matched(_)),
    ensures
        first_allocation_match_from(allocs, subject, attrs, now, total_shards, 0) == Some(
            (i, si),
        ),
{
    crate::eval_assignment::lemma_first_alloc_from(
        allocs,
        subject,
        attrs,
        now,
        total_shards,
        i,
    );
}

/// Allocation order at the flag level: when the earliest matching
/// allocation's split names an existing variation of the flag's type, the
/// whole flag evaluation settles on that allocation and split — later
/// allocations never influence the assignment or its event.
pub proof fn lemma_first_allocation_decides(
    f: Flag,
    subject: Seq<char>,
    attrs: &Attributes,
    now: int,
    i: int,
    si: int,
)
    requires
        f.enabled,
        0 <= i < f.allocations@.len(),
        allocation_outcome(f.allocations@[i], subject, attrs, now, f.total_shards)
            == AllocOutcome::Matched(si),
        forall|j: int|
            0 <= j < i ==> !(allocation_outcome(
                #[trigger] f.allocations@[j],
                subject,
                attrs,
                now,
                f.total_shards,
            ) matches AllocOutcome::Matched(_)),
        f.spec_get_variation(f.allocations@[i].splits@[si].variation_key@) matches Some(v)
            && crate::ufc::coerce_value(v.value@, f.variation_type) is Some,
    ensures
        flag_outcome(f, subject, attrs, now) == FlagOutcome::Matched(i, si),
{
    lemma_allocation_order(f.allocations@, subject, attrs, now, f.total_shards, i, si);
}

/// Time gating: before its start instant an allocation is skipped as
/// before-start, after its end instant as after-end; inside the window
/// neither time gate fires.
pub proof fn lemma_time_gating(
    a: Allocation,
    subject: Seq<char>,
    attrs: &Attributes,
    now: int,
    total_shards: u64,
)
    ensures
        (a.start_at matches Some(t) && now < t) ==> allocation_outcome(
            a,
            subject,
            attrs,
            now,
            total_shards,
        ) == AllocOutcome::BeforeStartDate,
        (!(a.start_at matches Some(t) && now < t) && (a.end_at matches Some(t) && now > t))
            ==> allocation_outcome(a, subject, attrs, now, total_shards)
            == AllocOutcome::AfterEndDate,
        (!(a.start_at matches Some(t) && now < t) && !(a.end_at matches Some(t) && now > t))
            ==> allocation_outcome(a, subject, attrs, now, total_shards)
            != AllocOutcome::BeforeStartDate && allocation_outcome(
            a,
            subject,
            attrs,
            now,
            total_shards,
        ) != AllocOutcome::AfterEndDate,
{
}

/// Type check: evaluating a flag while expecting a different variation
/// type fails with a type mismatch naming both types, whatever the
/// subject.
pub proof fn lemma_type_mismatch(
    flags: &UniversalFlagConfig,
    flag_key: Seq<char>,
    subject: Seq<char>,
    attrs: &Attributes,
    expected: VariationType,
    now: int,
)
    requires
        flags.spec_get_flag(flag_key) matches Some(TryParse::Parsed(f)) && f.variation_type
            != expected,
    ensures
        flag_eval_result(flags, flag_key, subject, attrs, Some(expected), now)
            == FlagEvalSpec::Failure(
            EvaluationFailure::Error(
                EvaluationError::TypeMismatch {
                    expected: expected,
                    found: flags.spec_get_flag(flag_key)->Some_0->Parsed_0.variation_type,
                },
            ),
        ),
{
}

} // verus!
