//! The bandit evaluator.
//!
//! A bandit evaluation first evaluates the flag as a string variation; if
//! the assigned variation is tied to a bandit, the bandit model scores the
//! supplied actions and selects one for the subject. When no variation
//! resolves, the caller's default variation is returned alone and no
//! bandit is consulted — even one tied to that default. A variation
//! without a bandit, an unknown bandit, or an empty action list likewise
//! return the variation alone.
//!
//! The flag evaluation reads a generic attribute view of the subject's
//! context attributes; callers derive it with
//! [`ContextAttributes::to_generic_attributes`], which the contracts here
//! take as a separate argument so that both readings are pinned exactly.

use vstd::prelude::*;
use vstd::string::*;

use crate::attributes::Attributes;
use crate::bandits::{best_action_upto, sat64, scores_of, selected_action, selection_threshold,
    weight_of, BanditEvaluationDetails, ContextAttributes};
use crate::configuration::Configuration;
use crate::eval_assignment::{expected_event, flag_eval_result, get_assignment, EvaluationFailure,
    FlagEvalSpec};
use crate::events::{AssignmentEvent, EventMetaData};
use crate::ufc::{AssignmentValue, Timestamp, VariationType};

verus! {

/// A bandit evaluation event: which action a subject was offered, with
/// what probability, and under which model.
#[derive(Debug, Clone, PartialEq)]
pub struct BanditEvent {
    pub flag_key: String,
    pub bandit_key: String,
    pub subject: String,
    pub action: String,
    /// The selected action's weight, in micros.
    pub action_probability: i64,
    /// Distance between the best and the selected action's scores, in
    /// micros.
    pub optimality_gap: i64,
    pub model_version: String,
    pub timestamp: Timestamp,
    pub subject_numeric_attributes: Vec<(String, i64)>,
    pub subject_categorical_attributes: Vec<(String, String)>,
    pub action_numeric_attributes: Vec<(String, i64)>,
    pub action_categorical_attributes: Vec<(String, String)>,
    pub meta_data: EventMetaData,
}

/// Result of evaluating a bandit.
#[derive(Debug, Clone, PartialEq)]
pub struct BanditResult {
    /// Selected variation from the feature flag.
    pub variation: String,
    /// Selected action, if any.
    pub action: Option<String>,
    /// Flag assignment event to log, if any.
    pub assignment_event: Option<AssignmentEvent>,
    /// Bandit assignment event to log, if any.
    pub bandit_event: Option<BanditEvent>,
}

/// Content view of a numeric attribute list.
pub open spec fn numeric_pairs_content(v: Seq<(String, i64)>) -> Seq<(Seq<char>, i64)> {
    v.map_values(|p: (String, i64)| (p.0@, p.1))
}

/// Content view of a string attribute list.
pub open spec fn string_pairs_content(v: Seq<(String, String)>) -> Seq<(Seq<char>, Seq<char>)> {
    v.map_values(|p: (String, String)| (p.0@, p.1@))
}

/// What the bandit stage must produce once a variation has been
/// assigned: no action unless the variation is a bandit variation with a
/// known model and a non-empty action list; otherwise the deterministic
/// selection of the model, together with a fully pinned bandit event.
pub open spec fn bandit_followup(
    r: &BanditResult,
    config: &Configuration,
    flag_key: Seq<char>,
    subject_key: Seq<char>,
    ctx: &ContextAttributes,
    actions: Seq<(String, ContextAttributes)>,
    variation: Seq<char>,
    now: int,
    meta: &EventMetaData,
) -> bool {
    match config.spec_get_bandit_key(flag_key, variation) {
        None => r.action is None && r.bandit_event is None,
        Some(bandit_key) => match config.spec_get_bandit(bandit_key) {
            None => r.action is None && r.bandit_event is None,
            Some(model) => if actions.len() == 0 {
                r.action is None && r.bandit_event is None
            } else {
                let md = &model.model_data;
                let scores = scores_of(md, actions, ctx);
                let best = best_action_upto(md, ctx, actions, actions.len() as int);
                let keys = actions.map_values(|p: (String, ContextAttributes)| p.0@);
                let weights = Seq::new(actions.len(), |i: int| weight_of(md, scores, best, i));
                let threshold = selection_threshold(flag_key, subject_key);
                let sel = selected_action(
                    weights,
                    flag_key,
                    subject_key,
                    keys,
                    threshold,
                    actions.len() as int,
                );
                &&& r.action matches Some(a) && a@ == keys[sel]
                &&& r.bandit_event matches Some(e) && {
                    &&& e.flag_key@ == flag_key
                    &&& e.bandit_key@ == bandit_key
                    &&& e.subject@ == subject_key
                    &&& e.action@ == keys[sel]
                    &&& e.action_probability == weight_of(md, scores, best, sel)
                    &&& e.optimality_gap == sat64(scores[best] - scores[sel])
                    &&& e.model_version@ == model.model_version@
                    &&& e.timestamp == now
                    &&& numeric_pairs_content(e.subject_numeric_attributes@)
                        == numeric_pairs_content(ctx.numeric@)
                    &&& string_pairs_content(e.subject_categorical_attributes@)
                        == string_pairs_content(ctx.categorical@)
                    &&& numeric_pairs_content(e.action_numeric_attributes@)
                        == numeric_pairs_content(actions[sel].1.numeric@)
                    &&& string_pairs_content(e.action_categorical_attributes@)
                        == string_pairs_content(actions[sel].1.categorical@)
                    &&& e.meta_data@ == meta@
                }
            },
        },
    }
}

/// The string variation the bandit stage starts from: the assigned
/// variation when the flag evaluation matched, the default otherwise.
pub open spec fn bandit_variation(
    config: &Configuration,
    flag_key: Seq<char>,
    subject_key: Seq<char>,
    gattrs: &Attributes,
    now: int,
    default_variation: Seq<char>,
) -> Seq<char> {
    match flag_eval_result(
        &config.flags,
        flag_key,
        subject_key,
        gattrs,
        Some(VariationType::String),
        now,
    ) {
        FlagEvalSpec::Matched(ai, si) => {
        let flag = config.flags.spec_get_flag(flag_key)->Some_0->Parsed_0;
        let vkey = flag.allocations@[ai].splits@[si].variation_key@;
        let v = flag.spec_get_variation(vkey)->Some_0;
        crate::ufc::coerce_value(v.value@, flag.variation_type)->Some_0->String_0
        },
        FlagEvalSpec::Failure(_) => default_variation,
    }
}

fn duplicate_numeric_pairs(v: &Vec<(String, i64)>) -> (r: Vec<(String, i64)>)
    ensures
        numeric_pairs_content(r@) == numeric_pairs_content(v@),
{
    let mut r: Vec<(String, i64)> = Vec::new();
    let n = v.len();
    let mut i: usize = 0;
    while i < n
        invariant
            0 <= i <= n == v@.len(),
            r@.len() == i,
            forall|k: int|
                0 <= k < i ==> (#[trigger] r@[k]).0@ == v@[k].0@ && r@[k].1 == v@[k].1,
        decreases n - i,
    {
        r.push((String::from_str(v[i].0.as_str()), v[i].1));
        i = i + 1;
    }
    proof {
        assert(numeric_pairs_content(r@) =~= numeric_pairs_content(v@));
    }
    r
}

/// What a bandit evaluation must return: with no snapshot, the default
/// variation alone; otherwise the assigned (or default) variation, the
/// bandit follow-up only when the flag resolved a variation, and the
/// assignment event exactly when the matched allocation logs.
pub open spec fn bandit_result_ok(
    r: &BanditResult,
    configuration: Option<&Configuration>,
    flag_key: Seq<char>,
    subject_key: Seq<char>,
    gattrs: &Attributes,
    ctx: &ContextAttributes,
    actions: Seq<(String, ContextAttributes)>,
    default_variation: Seq<char>,
    now: int,
    meta: &EventMetaData,
) -> bool {
    match configuration {
        None => r.variation@ == default_variation && r.action is None && r.assignment_event
            is None && r.bandit_event is None,
        Some(config) => {
            let variation = bandit_variation(
                config,
                flag_key,
                subject_key,
                gattrs,
                now,
                default_variation,
            );
            &&& r.variation@ == variation
            &&& ({
                // the bandit is consulted only when the flag resolved a
                // variation; an unresolved flag returns the default
                // alone, even one tied to a bandit
                match flag_eval_result(
                    &config.flags,
                    flag_key,
                    subject_key,
                    gattrs,
                    Some(VariationType::String),
                    now,
                ) {
                    FlagEvalSpec::Matched(_, _) => bandit_followup(
                        r,
                        config,
                        flag_key,
                        subject_key,
                        ctx,
                        actions,
                        variation,
                        now,
                        meta,
                    ),
                    FlagEvalSpec::Failure(_) => r.action is None && r.bandit_event is None,
                }
            })
            &&& ({
                match flag_eval_result(
                    &config.flags,
                    flag_key,
                    subject_key,
                    gattrs,
                    Some(VariationType::String),
                    now,
                ) {
                    FlagEvalSpec::Matched(ai, si) => {
                        let flag = config.flags.spec_get_flag(flag_key)->Some_0->Parsed_0;
                        if flag.allocations@[ai].do_log {
                            r.assignment_event matches Some(e) && e@ == expected_event(
                                flag,
                                ai,
                                si,
                                subject_key,
                                gattrs,
                                now,
                                meta@,
                            )
                        } else {
                            r.assignment_event is None
                        }
                    },
                    FlagEvalSpec::Failure(_) => r.assignment_event is None,
                }
            })
        },
    }
}

/// Evaluates the string flag for the subject and, when the variation is a
/// bandit variation, selects an action from the supplied ones.
///
/// `subject_attributes` is the generic attribute view of
/// `subject_context`; callers derive it with
/// [`ContextAttributes::to_generic_attributes`].
pub fn get_bandit_action(
    configuration: Option<&Configuration>,
    flag_key: &str,
    subject_key: &str,
    subject_attributes: &Attributes,
    subject_context: &ContextAttributes,
    actions: &Vec<(String, ContextAttributes)>,
    default_variation: &str,
    now: Timestamp,
    meta: &EventMetaData,
) -> (r: BanditResult)
    requires
        configuration matches Some(c) ==> c.flags.well_formed(),
        forall|i: int, j: int|
            0 <= i < j < actions@.len() ==> actions@[i].0@ != actions@[j].0@,
    ensures
        bandit_result_ok(
            &r,
            configuration,
            flag_key@,
            subject_key@,
            subject_attributes,
            subject_context,
            actions@,
            default_variation@,
            now as int,
            meta,
        ),
{
    let config = match configuration {
        Some(c) => c,
        None => {
            return BanditResult {
                variation: String::from_str(default_variation),
                action: None,
                assignment_event: None,
                bandit_event: None,
            };
        },
    };
    let result = get_assignment(
        Some(config),
        flag_key,
        subject_key,
        subject_attributes,
        Some(VariationType::String),
        now,
        meta,
    );
    let (variation, assignment_event) = match result {
        Ok(Some(a)) => {
            match a.value {
                AssignmentValue::String(s) => (s, a.event),
                _ => {
                    return BanditResult {
                        variation: String::from_str(default_variation),
                        action: None,
                        assignment_event: None,
                        bandit_event: None,
                    };
                },
            }
        },
        _ => {
            // no variation resolved: the default is returned alone and
            // the bandit stage never runs
            return BanditResult {
                variation: String::from_str(default_variation),
                action: None,
                assignment_event: None,
                bandit_event: None,
            };
        },
    };
    let bandit_key = match config.get_bandit_key(flag_key, variation.as_str()) {
        Some(k) => k,
        None => {
            // not a bandit variation: return it alone
            return BanditResult { variation, action: None, assignment_event, bandit_event: None };
        },
    };
    let bandit = match config.get_bandit(bandit_key.as_str()) {
        Some(b) => b,
        None => {
            // the flag references a bandit that the snapshot does not carry
            return BanditResult { variation, action: None, assignment_event, bandit_event: None };
        },
    };
    let evaluation: BanditEvaluationDetails = match bandit.model_data.evaluate(
        flag_key,
        subject_key,
        subject_context,
        actions,
    ) {
        Ok(e) => e,
        Err(_) => {
            // no actions were supplied
            return BanditResult { variation, action: None, assignment_event, bandit_event: None };
        },
    };
    let ghost keys = actions@.map_values(|p: (String, ContextAttributes)| p.0@);
    let ghost md = &bandit.model_data;
    let ghost scores = scores_of(md, actions@, subject_context);
    let ghost best = best_action_upto(md, subject_context, actions@, actions@.len() as int);
    let ghost weights = Seq::new(actions@.len(), |i: int| weight_of(md, scores, best, i));
    let ghost sel = selected_action(
        weights,
        flag_key@,
        subject_key@,
        keys,
        selection_threshold(flag_key@, subject_key@),
        actions@.len() as int,
    );
    // find the selected action's attributes to copy into the event
    let mut sel_idx: usize = 0;
    let n = actions.len();
    let mut i: usize = 0;
    let mut found = false;
    while i < n
        invariant
            0 <= i <= n == actions@.len(),
            found ==> 0 <= sel_idx < n && actions@[sel_idx as int].0@ == evaluation.action_key@,
            !found ==> forall|k: int| 0 <= k < i ==> actions@[k].0@ != evaluation.action_key@,
        decreases n - i,
    {
        if !found && crate::text::str_eq(actions[i].0.as_str(), evaluation.action_key.as_str()) {
            sel_idx = i;
            found = true;
        }
        i = i + 1;
    }
    proof {
        crate::bandits::lemma_selected_action_range(
            weights,
            flag_key@,
            subject_key@,
            keys,
            selection_threshold(flag_key@, subject_key@),
            actions@.len() as int,
        );
        assert(0 <= sel < actions@.len());
        assert(keys[sel] == actions@[sel].0@);
        assert(evaluation.action_key@ == keys[sel]);
        assert(found);
        assert(sel_idx as int == sel);
    }
    let bandit_event = BanditEvent {
        flag_key: String::from_str(flag_key),
        bandit_key: String::from_str(bandit_key.as_str()),
        subject: String::from_str(subject_key),
        action: String::from_str(evaluation.action_key.as_str()),
        action_probability: evaluation.action_weight,
        optimality_gap: evaluation.optimality_gap,
        model_version: String::from_str(bandit.model_version.as_str()),
        timestamp: now,
        subject_numeric_attributes: duplicate_numeric_pairs(&subject_context.numeric),
        subject_categorical_attributes: crate::events::duplicate_string_pairs(
            &subject_context.categorical,
        ),
        action_numeric_attributes: duplicate_numeric_pairs(&actions[sel_idx].1.numeric),
        action_categorical_attributes: crate::events::duplicate_string_pairs(
            &actions[sel_idx].1.categorical,
        ),
        meta_data: meta.duplicate(),
    };
    BanditResult {
        variation,
        action: Some(evaluation.action_key),
        assignment_event,
        bandit_event: Some(bandit_event),
    }
}


/// Evaluates the bandit as [`get_bandit_action`] does and additionally
/// returns the record of the underlying flag evaluation, produced by a
/// second, detail-recording pass over the same inputs (evaluation is
/// deterministic, so both passes decide alike).
pub fn get_bandit_action_details(
    configuration: Option<&Configuration>,
    flag_key: &str,
    subject_key: &str,
    subject_attributes: &Attributes,
    subject_context: &ContextAttributes,
    actions: &Vec<(String, ContextAttributes)>,
    default_variation: &str,
    now: Timestamp,
    meta: &EventMetaData,
) -> (r: (BanditResult, crate::eval_details::EvalFlagDetails))
    requires
        configuration matches Some(c) ==> c.flags.well_formed(),
        forall|i: int, j: int|
            0 <= i < j < actions@.len() ==> actions@[i].0@ != actions@[j].0@,
    ensures
        bandit_result_ok(
            &r.0,
            configuration,
            flag_key@,
            subject_key@,
            subject_attributes,
            subject_context,
            actions@,
            default_variation@,
            now as int,
            meta,
        ),
        crate::eval_details::details_record_ok(
            &r.1,
            configuration,
            flag_key@,
            subject_key@,
            subject_attributes,
            Some(VariationType::String),
            now as int,
        ),
{
    let (details, _) = crate::eval_details::get_assignment_details(
        configuration,
        flag_key,
        subject_key,
        subject_attributes,
        Some(VariationType::String),
        now,
        meta,
    );
    let result = get_bandit_action(
        configuration,
        flag_key,
        subject_key,
        subject_attributes,
        subject_context,
        actions,
        default_variation,
        now,
        meta,
    );
    (result, details)
}

} // verus!
