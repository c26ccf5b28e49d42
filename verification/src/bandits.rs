//! The contextual-bandit model.
//!
//! A bandit model scores every supplied action from linear coefficients
//! over the action's and the subject's attributes, weighs the actions, and
//! selects one pseudo-randomly but deterministically per subject. All
//! scores and weights are fixed-point: counts of millionths.

use vstd::prelude::*;

use crate::text::str_eq;

verus! {

/// A coefficient applied to a numeric attribute.
#[derive(Debug, Clone, PartialEq)]
pub struct BanditNumericAttributeCoefficient {
    pub attribute_key: String,
    /// Factor applied to the attribute value, in micros.
    pub coefficient: i64,
    /// Contribution used when the attribute is missing, in micros.
    pub missing_value_coefficient: i64,
}

/// A coefficient applied to a categorical attribute: one contribution per
/// known value.
#[derive(Debug, Clone, PartialEq)]
pub struct BanditCategoricalAttributeCoefficient {
    pub attribute_key: String,
    /// Contribution per attribute value, in micros.
    pub value_coefficients: Vec<(String, i64)>,
    /// Contribution used when the attribute is missing or unknown, in micros.
    pub missing_value_coefficient: i64,
}

/// The coefficients of one action.
#[derive(Debug, Clone, PartialEq)]
pub struct BanditCoefficients {
    pub action_key: String,
    /// Constant contribution, in micros.
    pub intercept: i64,
    pub action_numeric_coefficients: Vec<BanditNumericAttributeCoefficient>,
    pub action_categorical_coefficients: Vec<BanditCategoricalAttributeCoefficient>,
    pub subject_numeric_coefficients: Vec<BanditNumericAttributeCoefficient>,
    pub subject_categorical_coefficients: Vec<BanditCategoricalAttributeCoefficient>,
}

/// The data of a bandit model.
#[derive(Debug, Clone, PartialEq)]
pub struct BanditModelData {
    /// Sharpness of the weighing, in micros.
    pub gamma: i64,
    /// Score of an action without coefficients, in micros.
    pub default_action_score: i64,
    /// Lower bound on any action's selection probability, in micros.
    pub action_probability_floor: i64,
    /// Per-action coefficients, keyed by action key.
    pub coefficients: Vec<BanditCoefficients>,
}

/// A bandit model with its version.
#[derive(Debug, Clone, PartialEq)]
pub struct BanditModel {
    pub model_version: String,
    pub model_data: BanditModelData,
}

/// Context attributes of a subject or an action, split into numeric
/// (micros) and categorical parts.
#[derive(Debug, Clone, PartialEq)]
pub struct ContextAttributes {
    pub numeric: Vec<(String, i64)>,
    pub categorical: Vec<(String, String)>,
}

/// The value bound to `key` in an association list of numbers.
pub open spec fn numbers_get(entries: Seq<(String, i64)>, key: Seq<char>) -> Option<i64>
    decreases entries.len(),
{
    if entries.len() == 0 {
        None
    } else if entries[0].0@ == key {
        Some(entries[0].1)
    } else {
        numbers_get(entries.drop_first(), key)
    }
}

/// The value bound to `key` in an association list of strings.
pub open spec fn strings_get(entries: Seq<(String, String)>, key: Seq<char>) -> Option<Seq<char>>
    decreases entries.len(),
{
    if entries.len() == 0 {
        None
    } else if entries[0].0@ == key {
        Some(entries[0].1@)
    } else {
        strings_get(entries.drop_first(), key)
    }
}

proof fn lemma_numbers_get_skip(entries: Seq<(String, i64)>, key: Seq<char>, i: int)
    requires
        0 <= i <= entries.len(),
        forall|k: int| 0 <= k < i ==> entries[k].0@ != key,
    ensures
        numbers_get(entries, key) == numbers_get(entries.skip(i), key),
    decreases i,
{
    if i > 0 {
        assert(entries.skip(1).skip(i - 1) == entries.skip(i));
        assert(forall|k: int|
            0 <= k < i - 1 ==> #[trigger] entries.skip(1)[k].0@ == entries[k + 1].0@);
        lemma_numbers_get_skip(entries.skip(1), key, i - 1);
        assert(entries.drop_first() == entries.skip(1));
    } else {
        assert(entries.skip(0) == entries);
    }
}

proof fn lemma_strings_get_skip(entries: Seq<(String, String)>, key: Seq<char>, i: int)
    requires
        0 <= i <= entries.len(),
        forall|k: int| 0 <= k < i ==> entries[k].0@ != key,
    ensures
        strings_get(entries, key) == strings_get(entries.skip(i), key),
    decreases i,
{
    if i > 0 {
        assert(entries.skip(1).skip(i - 1) == entries.skip(i));
        assert(forall|k: int|
            0 <= k < i - 1 ==> #[trigger] entries.skip(1)[k].0@ == entries[k + 1].0@);
        lemma_strings_get_skip(entries.skip(1), key, i - 1);
        assert(entries.drop_first() == entries.skip(1));
    } else {
        assert(entries.skip(0) == entries);
    }
}

impl ContextAttributes {
    /// The numeric attribute named `key`, if any.
    pub open spec fn spec_numeric(&self, key: Seq<char>) -> Option<i64> {
        numbers_get(self.numeric@, key)
    }

    /// The categorical attribute named `key`, if any.
    pub open spec fn spec_categorical(&self, key: Seq<char>) -> Option<Seq<char>> {
        strings_get(self.categorical@, key)
    }

    /// Looks a numeric attribute up.
    pub fn get_numeric(&self, key: &str) -> (r: Option<i64>)
        ensures
            r == self.spec_numeric(key@),
    {
        let n = self.numeric.len();
        let mut i: usize = 0;
        while i < n
            invariant
                0 <= i <= n == self.numeric@.len(),
                forall|k: int| 0 <= k < i ==> self.numeric@[k].0@ != key@,
            decreases n - i,
        {
            if str_eq(self.numeric[i].0.as_str(), key) {
                proof {
                    lemma_numbers_get_skip(self.numeric@, key@, i as int);
                    assert(self.numeric@.skip(i as int)[0] == self.numeric@[i as int]);
                }
                return Some(self.numeric[i].1);
            }
            i = i + 1;
        }
        proof {
            lemma_numbers_get_skip(self.numeric@, key@, n as int);
        }
        None
    }

    /// Looks a categorical attribute up.
    pub fn get_categorical(&self, key: &str) -> (r: Option<&String>)
        ensures
            match r {
                Some(s) => self.spec_categorical(key@) == Some(s@),
                None => self.spec_categorical(key@) is None,
            },
    {
        let n = self.categorical.len();
        let mut i: usize = 0;
        while i < n
            invariant
                0 <= i <= n == self.categorical@.len(),
                forall|k: int| 0 <= k < i ==> self.categorical@[k].0@ != key@,
            decreases n - i,
        {
            if str_eq(self.categorical[i].0.as_str(), key) {
                proof {
                    lemma_strings_get_skip(self.categorical@, key@, i as int);
                    assert(self.categorical@.skip(i as int)[0] == self.categorical@[i as int]);
                }
                return Some(&self.categorical[i].1);
            }
            i = i + 1;
        }
        proof {
            lemma_strings_get_skip(self.categorical@, key@, n as int);
        }
        None
    }

    /// These context attributes as generic attributes: categorical
    /// entries first, then numeric ones, so that a name carried in both
    /// parts reads as categorical.
    pub fn to_generic_attributes(&self) -> (r: crate::attributes::Attributes)
        ensures
            r.entries@.len() == self.categorical@.len() + self.numeric@.len(),
            forall|k: int|
                0 <= k < self.categorical@.len() ==> (#[trigger] r.entries@[k]).name@
                    == self.categorical@[k].0@ && r.entries@[k].value@
                    == crate::attributes::AttrVal::Categorical(self.categorical@[k].1@),
            forall|k: int|
                self.categorical@.len() <= k < r.entries@.len()
                    ==> (#[trigger] r.entries@[k]).name@ == self.numeric@[k
                    - self.categorical@.len()].0@ && r.entries@[k].value@
                    == crate::attributes::AttrVal::Numeric(
                    self.numeric@[k - self.categorical@.len()].1 as int,
                ),
    {
        let mut r = crate::attributes::Attributes::new();
        let m = self.categorical.len();
        let mut j: usize = 0;
        while j < m
            invariant
                0 <= j <= m == self.categorical@.len(),
                r.entries@.len() == j,
                forall|k: int|
                    0 <= k < j ==> (#[trigger] r.entries@[k]).name@ == self.categorical@[k].0@
                        && r.entries@[k].value@ == crate::attributes::AttrVal::Categorical(
                        self.categorical@[k].1@,
                    ),
            decreases m - j,
        {
            r.push(
                String::from_str(self.categorical[j].0.as_str()),
                crate::attributes::AttributeValue::Categorical(
                    String::from_str(self.categorical[j].1.as_str()),
                ),
            );
            j = j + 1;
        }
        let n = self.numeric.len();
        let mut i: usize = 0;
        while i < n
            invariant
                0 <= i <= n == self.numeric@.len(),
                m == self.categorical@.len(),
                r.entries@.len() == m + i,
                forall|k: int|
                    0 <= k < m ==> (#[trigger] r.entries@[k]).name@ == self.categorical@[k].0@
                        && r.entries@[k].value@ == crate::attributes::AttrVal::Categorical(
                        self.categorical@[k].1@,
                    ),
                forall|k: int|
                    m <= k < m + i ==> (#[trigger] r.entries@[k]).name@ == self.numeric@[k
                        - m].0@ && r.entries@[k].value@ == crate::attributes::AttrVal::Numeric(
                        self.numeric@[k - m].1 as int,
                    ),
            decreases n - i,
        {
            r.push(
                String::from_str(self.numeric[i].0.as_str()),
                crate::attributes::AttributeValue::Numeric(self.numeric[i].1),
            );
            i = i + 1;
        }
        r
    }
}


/// Clamp of a mathematical integer to the `i64` range.
pub open spec fn sat64(x: int) -> int {
    if x > i64::MAX {
        i64::MAX as int
    } else if x < i64::MIN {
        i64::MIN as int
    } else {
        x
    }
}

/// Truncating division by a positive count.
pub open spec fn tdiv(a: int, b: int) -> int {
    if a >= 0 {
        a / b
    } else {
        -((-a) / b)
    }
}

/// A scaled fixed-point product: `a * b` in micros is `a * b / 1e6`,
/// truncated toward zero and clamped to the `i64` range.
pub open spec fn scaled(a: int, b: int) -> int {
    let m = ((vstd::math::abs(a) * vstd::math::abs(b)) as int) / 1_000_000;
    if (a < 0) <==> (b < 0) {
        sat64(m)
    } else {
        sat64(-m)
    }
}

/// Saturating addition.
fn sat_add(a: i64, b: i64) -> (r: i64)
    ensures
        r == sat64(a as int + b as int),
{
    let s: i128 = a as i128 + b as i128;
    if s > i64::MAX as i128 {
        i64::MAX
    } else if s < i64::MIN as i128 {
        i64::MIN
    } else {
        s as i64
    }
}

/// Computes the scaled fixed-point product of two micros values.
fn scaled_product(a: i64, b: i64) -> (r: i64)
    ensures
        r == scaled(a as int, b as int),
{
    let ua: u128 = if a >= 0 {
        a as u128
    } else {
        (-(a as i128)) as u128
    };
    let ub: u128 = if b >= 0 {
        b as u128
    } else {
        (-(b as i128)) as u128
    };
    proof {
        assert(ua == vstd::math::abs(a as int));
        assert(ub == vstd::math::abs(b as int));
        vstd::arithmetic::mul::lemma_mul_upper_bound(
            ua as int,
            0x8000000000000000,
            ub as int,
            0x8000000000000000,
        );
    }
    let up: u128 = ua * ub;
    let uq: u128 = up / 1_000_000;
    let negative = (a < 0) != (b < 0);
    if negative {
        if uq >= 0x8000000000000000u128 {
            i64::MIN
        } else {
            -(uq as i64)
        }
    } else {
        if uq > i64::MAX as u128 {
            i64::MAX
        } else {
            uq as i64
        }
    }
}

/// Divides a micros value by a positive count, truncating toward zero.
fn div_by_count(a: i64, n: usize) -> (r: i64)
    requires
        1 <= n,
    ensures
        r == tdiv(a as int, n as int),
{
    let nn: i128 = n as i128;
    if a >= 0 {
        let q: i128 = (a as i128) / nn;
        q as i64
    } else {
        let m: i128 = -(a as i128);
        let q: i128 = m / nn;
        proof {
            vstd::arithmetic::div_mod::lemma_div_is_ordered_by_denominator(m as int, 1, nn as int);
            vstd::arithmetic::div_mod::lemma_div_basics(m as int);
        }
        (-q) as i64
    }
}

/// The coefficients stored under `action_key`: the first entry with that
/// key.
pub open spec fn coefficients_get(entries: Seq<BanditCoefficients>, action_key: Seq<char>) -> Option<
    BanditCoefficients,
>
    decreases entries.len(),
{
    if entries.len() == 0 {
        None
    } else if entries[0].action_key@ == action_key {
        Some(entries[0])
    } else {
        coefficients_get(entries.drop_first(), action_key)
    }
}

proof fn lemma_coefficients_get_skip(entries: Seq<BanditCoefficients>, key: Seq<char>, i: int)
    requires
        0 <= i <= entries.len(),
        forall|k: int| 0 <= k < i ==> entries[k].action_key@ != key,
    ensures
        coefficients_get(entries, key) == coefficients_get(entries.skip(i), key),
    decreases i,
{
    if i > 0 {
        assert(entries.skip(1).skip(i - 1) == entries.skip(i));
        assert(forall|k: int|
            0 <= k < i - 1 ==> #[trigger] entries.skip(1)[k].action_key@ == entries[k
                + 1].action_key@);
        lemma_coefficients_get_skip(entries.skip(1), key, i - 1);
        assert(entries.drop_first() == entries.skip(1));
    } else {
        assert(entries.skip(0) == entries);
    }
}

/// The score contribution of the numeric coefficients: each present
/// attribute contributes its scaled product with the coefficient, a
/// missing one contributes the fallback; contributions add with
/// saturation.
pub open spec fn numeric_terms_score(
    coefs: Seq<BanditNumericAttributeCoefficient>,
    attrs: &ContextAttributes,
) -> int
    decreases coefs.len(),
{
    if coefs.len() == 0 {
        0
    } else {
        let prior = numeric_terms_score(coefs.drop_last(), attrs);
        let c = coefs.last();
        let term = match attrs.spec_numeric(c.attribute_key@) {
            Some(v) => scaled(v as int, c.coefficient as int),
            None => c.missing_value_coefficient as int,
        };
        sat64(prior + term)
    }
}

/// The score contribution of the categorical coefficients: a present
/// attribute whose value is known contributes that value's coefficient,
/// anything else the fallback.
pub open spec fn categorical_terms_score(
    coefs: Seq<BanditCategoricalAttributeCoefficient>,
    attrs: &ContextAttributes,
) -> int
    decreases coefs.len(),
{
    if coefs.len() == 0 {
        0
    } else {
        let prior = categorical_terms_score(coefs.drop_last(), attrs);
        let c = coefs.last();
        let term = match attrs.spec_categorical(c.attribute_key@) {
            Some(v) => match numbers_get(c.value_coefficients@, v) {
                Some(vc) => vc as int,
                None => c.missing_value_coefficient as int,
            },
            None => c.missing_value_coefficient as int,
        };
        sat64(prior + term)
    }
}

/// The score of one attribute set under numeric and categorical
/// coefficients.
pub open spec fn attributes_score(
    numeric: Seq<BanditNumericAttributeCoefficient>,
    categorical: Seq<BanditCategoricalAttributeCoefficient>,
    attrs: &ContextAttributes,
) -> int {
    sat64(numeric_terms_score(numeric, attrs) + categorical_terms_score(categorical, attrs))
}

/// The score of an action: the default score when the model carries no
/// coefficients for it, otherwise the intercept plus the action-side and
/// subject-side attribute scores.
pub open spec fn action_score(
    model: &BanditModelData,
    action_key: Seq<char>,
    action_attrs: &ContextAttributes,
    subject_attrs: &ContextAttributes,
) -> int {
    match coefficients_get(model.coefficients@, action_key) {
        None => model.default_action_score as int,
        Some(c) => sat64(
            sat64(
                c.intercept + attributes_score(
                    c.action_numeric_coefficients@,
                    c.action_categorical_coefficients@,
                    action_attrs,
                ),
            ) + attributes_score(
                c.subject_numeric_coefficients@,
                c.subject_categorical_coefficients@,
                subject_attrs,
            ),
        ),
    }
}

fn eval_numeric_terms(
    coefs: &Vec<BanditNumericAttributeCoefficient>,
    attrs: &ContextAttributes,
) -> (r: i64)
    ensures
        r == numeric_terms_score(coefs@, attrs),
{
    let mut acc: i64 = 0;
    let n = coefs.len();
    let mut i: usize = 0;
    while i < n
        invariant
            0 <= i <= n == coefs@.len(),
            acc == numeric_terms_score(coefs@.take(i as int), attrs),
        decreases n - i,
    {
        let c = &coefs[i];
        let term = match attrs.get_numeric(c.attribute_key.as_str()) {
            Some(v) => scaled_product(v, c.coefficient),
            None => c.missing_value_coefficient,
        };
        proof {
            assert(coefs@.take(i + 1).drop_last() == coefs@.take(i as int));
            assert(coefs@.take(i + 1).last() == coefs@[i as int]);
        }
        acc = sat_add(acc, term);
        i = i + 1;
    }
    proof {
        assert(coefs@.take(n as int) == coefs@);
    }
    acc
}

#[verifier::loop_isolation(false)]
fn eval_categorical_terms(
    coefs: &Vec<BanditCategoricalAttributeCoefficient>,
    attrs: &ContextAttributes,
) -> (r: i64)
    ensures
        r == categorical_terms_score(coefs@, attrs),
{
    let mut acc: i64 = 0;
    let n = coefs.len();
    let mut i: usize = 0;
    while i < n
        invariant
            0 <= i <= n,
            acc == categorical_terms_score(coefs@.take(i as int), attrs),
        decreases n - i,
    {
        let c = &coefs[i];
        let term = match attrs.get_categorical(c.attribute_key.as_str()) {
            Some(v) => {
                match lookup_value_coefficient(&c.value_coefficients, v.as_str()) {
                    Some(vc) => vc,
                    None => c.missing_value_coefficient,
                }
            },
            None => c.missing_value_coefficient,
        };
        proof {
            assert(coefs@.take(i + 1).drop_last() == coefs@.take(i as int));
            assert(coefs@.take(i + 1).last() == coefs@[i as int]);
        }
        acc = sat_add(acc, term);
        i = i + 1;
    }
    proof {
        assert(coefs@.take(n as int) == coefs@);
    }
    acc
}

fn lookup_value_coefficient(entries: &Vec<(String, i64)>, value: &str) -> (r: Option<i64>)
    ensures
        r == numbers_get(entries@, value@),
{
    let n = entries.len();
    let mut i: usize = 0;
    while i < n
        invariant
            0 <= i <= n == entries@.len(),
            forall|k: int| 0 <= k < i ==> entries@[k].0@ != value@,
        decreases n - i,
    {
        if str_eq(entries[i].0.as_str(), value) {
            proof {
                lemma_numbers_get_skip(entries@, value@, i as int);
                assert(entries@.skip(i as int)[0] == entries@[i as int]);
            }
            return Some(entries[i].1);
        }
        i = i + 1;
    }
    proof {
        lemma_numbers_get_skip(entries@, value@, n as int);
    }
    None
}

impl BanditModelData {
    /// Looks the coefficients for `action_key` up.
    fn get_coefficients(&self, action_key: &str) -> (r: Option<&BanditCoefficients>)
        ensures
            match r {
                Some(c) => coefficients_get(self.coefficients@, action_key@) == Some(*c),
                None => coefficients_get(self.coefficients@, action_key@) is None,
            },
    {
        let n = self.coefficients.len();
        let mut i: usize = 0;
        while i < n
            invariant
                0 <= i <= n == self.coefficients@.len(),
                forall|k: int| 0 <= k < i ==> self.coefficients@[k].action_key@ != action_key@,
            decreases n - i,
        {
            if str_eq(self.coefficients[i].action_key.as_str(), action_key) {
                proof {
                    lemma_coefficients_get_skip(self.coefficients@, action_key@, i as int);
                    assert(self.coefficients@.skip(i as int)[0] == self.coefficients@[i as int]);
                }
                return Some(&self.coefficients[i]);
            }
            i = i + 1;
        }
        proof {
            lemma_coefficients_get_skip(self.coefficients@, action_key@, n as int);
        }
        None
    }

    /// Scores one action for a subject.
    pub fn score_action(
        &self,
        action_key: &str,
        action_attrs: &ContextAttributes,
        subject_attrs: &ContextAttributes,
    ) -> (r: i64)
        ensures
            r == action_score(self, action_key@, action_attrs, subject_attrs),
    {
        match self.get_coefficients(action_key) {
            None => self.default_action_score,
            Some(c) => {
                let action_part = sat_add(
                    eval_numeric_terms(&c.action_numeric_coefficients, action_attrs),
                    eval_categorical_terms(&c.action_categorical_coefficients, action_attrs),
                );
                let subject_part = sat_add(
                    eval_numeric_terms(&c.subject_numeric_coefficients, subject_attrs),
                    eval_categorical_terms(&c.subject_categorical_coefficients, subject_attrs),
                );
                sat_add(sat_add(c.intercept, action_part), subject_part)
            },
        }
    }
}


/// Saturating subtraction.
fn sat_sub(a: i64, b: i64) -> (r: i64)
    ensures
        r == sat64(a as int - b as int),
{
    let s: i128 = a as i128 - b as i128;
    if s > i64::MAX as i128 {
        i64::MAX
    } else if s < i64::MIN as i128 {
        i64::MIN
    } else {
        s as i64
    }
}

/// The scores of all supplied actions, in order.
pub open spec fn scores_of(
    model: &BanditModelData,
    actions: Seq<(String, ContextAttributes)>,
    subject: &ContextAttributes,
) -> Seq<int> {
    Seq::new(actions.len(), |i: int| action_score(model, actions[i].0@, &actions[i].1, subject))
}

/// Action `i` beats action `j`: a higher score, or an equal score and the
/// lexicographically smaller key.
pub open spec fn better_action(
    model: &BanditModelData,
    subject: &ContextAttributes,
    actions: Seq<(String, ContextAttributes)>,
    i: int,
    j: int,
) -> bool {
    let si = action_score(model, actions[i].0@, &actions[i].1, subject);
    let sj = action_score(model, actions[j].0@, &actions[j].1, subject);
    si > sj || (si == sj && crate::text::str_lt(actions[i].0@, actions[j].0@))
}

/// The best action among the first `n`: highest score, ties broken toward
/// the lexicographically smaller key.
pub open spec fn best_action_upto(
    model: &BanditModelData,
    subject: &ContextAttributes,
    actions: Seq<(String, ContextAttributes)>,
    n: int,
) -> int
    decreases n,
{
    if n <= 1 {
        0
    } else {
        let prev = best_action_upto(model, subject, actions, n - 1);
        if better_action(model, subject, actions, n - 1, prev) {
            n - 1
        } else {
            prev
        }
    }
}

/// Of two actions with equal score, the lexicographically smaller key is
/// the best action.
pub proof fn lemma_bandit_tie_break(
    model: &BanditModelData,
    subject: &ContextAttributes,
    actions: Seq<(String, ContextAttributes)>,
)
    requires
        actions.len() == 2,
        scores_of(model, actions, subject)[0] == scores_of(model, actions, subject)[1],
        actions[0].0@ != actions[1].0@,
    ensures
        best_action_upto(model, subject, actions, 2) == if crate::text::str_lt(
            actions[0].0@,
            actions[1].0@,
        ) {
            0int
        } else {
            1int
        },
{
    lemma_str_lt_total(actions[0].0@, actions[1].0@);
    lemma_str_lt_asymmetric(actions[0].0@, actions[1].0@);
    reveal_with_fuel(best_action_upto, 3);
    assert(scores_of(model, actions, subject)[0] == action_score(
        model,
        actions[0].0@,
        &actions[0].1,
        subject,
    ));
    assert(scores_of(model, actions, subject)[1] == action_score(
        model,
        actions[1].0@,
        &actions[1].1,
        subject,
    ));
    assert(best_action_upto(model, subject, actions, 1) == 0);
}

proof fn lemma_str_lt_asymmetric(a: Seq<char>, b: Seq<char>)
    ensures
        !(crate::text::str_lt(a, b) && crate::text::str_lt(b, a)),
    decreases a.len(),
{
    if a.len() > 0 && b.len() > 0 && a[0] == b[0] {
        lemma_str_lt_asymmetric(a.drop_first(), b.drop_first());
    }
}

proof fn lemma_str_lt_total(a: Seq<char>, b: Seq<char>)
    ensures
        a =~= b || crate::text::str_lt(a, b) || crate::text::str_lt(b, a),
    decreases a.len(),
{
    if a.len() == 0 && b.len() == 0 {
    } else if a.len() == 0 || b.len() == 0 {
    } else if a[0] == b[0] {
        lemma_str_lt_total(a.drop_first(), b.drop_first());
        if a.drop_first() =~= b.drop_first() {
            assert forall|i: int| 0 <= i < a.len() implies a[i] == b[i] by {
                if i > 0 {
                    assert(a[i] == a.drop_first()[i - 1]);
                    assert(b[i] == b.drop_first()[i - 1]);
                }
            }
            assert(a =~= b);
        }
    }
}

/// The weight of a non-best action with score gap `gap`: the larger of
/// the probability floor split over the actions and the softmax-style
/// weight `1 / (n + gamma * gap)`.
pub open spec fn non_best_weight(model: &BanditModelData, n: int, gap: int) -> int {
    let floor_term = tdiv(model.action_probability_floor as int, n);
    let dynamic = dynamic_weight(n, model.gamma as int, gap);
    if floor_term > dynamic {
        floor_term
    } else {
        dynamic
    }
}

/// The softmax-style weight in micros: `1e12 / (n * 1e6 + gamma * gap)`,
/// treating a non-positive denominator as a full weight.
pub open spec fn dynamic_weight(n: int, gamma: int, gap: int) -> int {
    let denom = n * 1_000_000 + scaled(gamma, gap);
    if denom <= 0 {
        1_000_000int
    } else {
        1_000_000_000_000int / denom
    }
}

/// The saturating sum of the non-best actions' weights over the first `j`
/// actions.
pub open spec fn others_weight_sum(
    model: &BanditModelData,
    scores: Seq<int>,
    best: int,
    j: int,
) -> int
    decreases j,
{
    if j <= 0 {
        0
    } else {
        let prior = others_weight_sum(model, scores, best, j - 1);
        if j - 1 == best {
            prior
        } else {
            sat64(
                prior + non_best_weight(
                    model,
                    scores.len() as int,
                    sat64(scores[best] - scores[j - 1]),
                ),
            )
        }
    }
}

/// The best action's weight: whatever the others leave of the full
/// probability, never negative.
pub open spec fn best_weight(model: &BanditModelData, scores: Seq<int>, best: int) -> int {
    let rem = 1_000_000 - others_weight_sum(model, scores, best, scores.len() as int);
    if rem < 0 {
        0
    } else {
        rem
    }
}

/// The weight of action `i`.
pub open spec fn weight_of(model: &BanditModelData, scores: Seq<int>, best: int, i: int) -> int {
    if i == best {
        best_weight(model, scores, best)
    } else {
        non_best_weight(model, scores.len() as int, sat64(scores[best] - scores[i]))
    }
}

/// Weight conservation: whenever the non-best weights total at most the
/// full probability, the best action receives exactly the remainder, so
/// all weights sum to one (a million micros).
pub proof fn lemma_weight_conservation(model: &BanditModelData, scores: Seq<int>, best: int)
    requires
        others_weight_sum(model, scores, best, scores.len() as int) <= 1_000_000,
    ensures
        others_weight_sum(model, scores, best, scores.len() as int) + best_weight(
            model,
            scores,
            best,
        ) == 1_000_000,
{
}

fn dynamic_weight_exec(n: usize, gamma: i64, gap: i64) -> (r: i64)
    ensures
        r == dynamic_weight(n as int, gamma as int, gap as int),
        r >= 0,
{
    let sc = scaled_product(gamma, gap);
    let denom: i128 = (n as i128) * 1_000_000 + (sc as i128);
    if denom <= 0 {
        1_000_000
    } else {
        proof {
            vstd::arithmetic::div_mod::lemma_div_is_ordered_by_denominator(
                1_000_000_000_000,
                1,
                denom as int,
            );
            vstd::arithmetic::div_mod::lemma_div_basics(1_000_000_000_000);
            vstd::arithmetic::div_mod::lemma_div_pos_is_pos(1_000_000_000_000, denom as int);
        }
        let q: i128 = 1_000_000_000_000i128 / denom;
        q as i64
    }
}

fn non_best_weight_exec(model: &BanditModelData, n: usize, gap: i64) -> (r: i64)
    requires
        n >= 1,
    ensures
        r == non_best_weight(model, n as int, gap as int),
        r >= tdiv(model.action_probability_floor as int, n as int),
        r >= 0,
{
    let floor_term = div_by_count(model.action_probability_floor, n);
    let dynamic = dynamic_weight_exec(n, model.gamma, gap);
    if floor_term > dynamic {
        floor_term
    } else {
        dynamic
    }
}

#[verifier::loop_isolation(false)]
fn compute_scores(
    model: &BanditModelData,
    actions: &Vec<(String, ContextAttributes)>,
    subject: &ContextAttributes,
) -> (r: Vec<i64>)
    ensures
        r@.len() == actions@.len(),
        forall|i: int|
            0 <= i < r@.len() ==> r@[i] == scores_of(model, actions@, subject)[i],
{
    let mut scores: Vec<i64> = Vec::new();
    let n = actions.len();
    let mut i: usize = 0;
    while i < n
        invariant
            0 <= i <= n,
            scores@.len() == i,
            forall|k: int|
                0 <= k < i ==> scores@[k] == action_score(
                    model,
                    actions@[k].0@,
                    &actions@[k].1,
                    subject,
                ),
        decreases n - i,
    {
        let s = model.score_action(actions[i].0.as_str(), &actions[i].1, subject);
        scores.push(s);
        i = i + 1;
    }
    scores
}

#[verifier::loop_isolation(false)]
fn find_best(
    model: &BanditModelData,
    actions: &Vec<(String, ContextAttributes)>,
    subject: &ContextAttributes,
    scores: &Vec<i64>,
) -> (r: usize)
    requires
        actions@.len() >= 1,
        scores@.len() == actions@.len(),
        forall|i: int|
            0 <= i < scores@.len() ==> scores@[i] == scores_of(model, actions@, subject)[i],
    ensures
        r == best_action_upto(model, subject, actions@, actions@.len() as int),
        0 <= r < actions@.len(),
{
    let n = actions.len();
    let mut best: usize = 0;
    let mut i: usize = 1;
    while i < n
        invariant
            1 <= i <= n,
            0 <= best < i,
            best == best_action_upto(model, subject, actions@, i as int),
        decreases n - i,
    {
        let si = scores[i];
        let sb = scores[best];
        if si > sb || (si == sb && crate::text::str_less(
            actions[i].0.as_str(),
            actions[best].0.as_str(),
        )) {
            best = i;
        }
        i = i + 1;
    }
    best
}

#[verifier::loop_isolation(false)]
fn compute_weights(model: &BanditModelData, scores: &Vec<i64>, best: usize) -> (r: Vec<i64>)
    requires
        scores@.len() >= 1,
        0 <= best < scores@.len(),
    ensures
        r@.len() == scores@.len(),
        forall|i: int|
            0 <= i < r@.len() ==> r@[i] == weight_of(
                model,
                scores@.map_values(|x: i64| x as int),
                best as int,
                i,
            ),
{
    let ghost sseq = scores@.map_values(|x: i64| x as int);
    let n = scores.len();
    // the non-best weights and their saturating sum
    let mut sum: i64 = 0;
    let mut j: usize = 0;
    while j < n
        invariant
            0 <= j <= n,
            sum == others_weight_sum(model, sseq, best as int, j as int),
        decreases n - j,
    {
        if j != best {
            let gap = sat_sub(scores[best], scores[j]);
            let w = non_best_weight_exec(model, n, gap);
            sum = sat_add(sum, w);
        }
        j = j + 1;
    }
    let best_w: i64 = if sum > 1_000_000 {
        0
    } else if sum < 0 {
        proof {
            lemma_others_weight_sum_nonneg(model, sseq, best as int, n as int);
        }
        0
    } else {
        1_000_000 - sum
    };
    let mut weights: Vec<i64> = Vec::new();
    let mut i: usize = 0;
    while i < n
        invariant
            0 <= i <= n,
            weights@.len() == i,
            sum == others_weight_sum(model, sseq, best as int, n as int),
            best_w == best_weight(model, sseq, best as int),
            forall|k: int|
                0 <= k < i ==> weights@[k] == weight_of(model, sseq, best as int, k),
        decreases n - i,
    {
        if i == best {
            weights.push(best_w);
        } else {
            let gap = sat_sub(scores[best], scores[i]);
            weights.push(non_best_weight_exec(model, n, gap));
        }
        i = i + 1;
    }
    weights
}

proof fn lemma_others_weight_sum_nonneg(
    model: &BanditModelData,
    scores: Seq<int>,
    best: int,
    j: int,
)
    ensures
        others_weight_sum(model, scores, best, j) >= 0,
    decreases j,
{
    if j > 0 {
        lemma_others_weight_sum_nonneg(model, scores, best, j - 1);
        if j - 1 != best {
            let n = scores.len() as int;
            let gap = sat64(scores[best] - scores[j - 1]);
            let denom = n * 1_000_000 + scaled(model.gamma as int, gap);
            if denom > 0 {
                vstd::arithmetic::div_mod::lemma_div_pos_is_pos(1_000_000_000_000, denom);
            }
        }
    }
}


/// Shard count used by bandit ordering and selection.
pub const BANDIT_TOTAL_SHARDS: u64 = 10_000;

/// The ordering hash of one action:
/// `md5([flag_key, "-", subject_key, "-", action_key])` reduced to the
/// bandit shard space.
pub open spec fn action_order_hash(
    flag_key: Seq<char>,
    subject_key: Seq<char>,
    action_key: Seq<char>,
) -> int {
    crate::sharder::shard_value(
        flag_key + "-"@ + subject_key + "-"@ + action_key,
        BANDIT_TOTAL_SHARDS,
    )
}

/// The selection threshold in micros: the subject's selection hash
/// `md5([flag_key, "-", subject_key]) mod 10000`, scaled from the shard
/// space to micros.
pub open spec fn selection_threshold(flag_key: Seq<char>, subject_key: Seq<char>) -> int {
    crate::sharder::shard_value(flag_key + "-"@ + subject_key, BANDIT_TOTAL_SHARDS) * 100
}

/// Action `i` comes before action `j` in the per-subject pseudo-random
/// order: by ordering hash, then by key.
pub open spec fn sort_before(
    flag_key: Seq<char>,
    subject_key: Seq<char>,
    keys: Seq<Seq<char>>,
    i: int,
    j: int,
) -> bool {
    let hi = action_order_hash(flag_key, subject_key, keys[i]);
    let hj = action_order_hash(flag_key, subject_key, keys[j]);
    hi < hj || (hi == hj && crate::text::str_lt(keys[i], keys[j]))
}

/// The cumulative weight of action `i`: the saturating sum of the weights
/// of all actions up to and including `i` in the pseudo-random order,
/// scanning the first `j` actions.
pub open spec fn cum_weight(
    weights: Seq<int>,
    flag_key: Seq<char>,
    subject_key: Seq<char>,
    keys: Seq<Seq<char>>,
    i: int,
    j: int,
) -> int
    decreases j,
{
    if j <= 0 {
        0
    } else {
        let prior = cum_weight(weights, flag_key, subject_key, keys, i, j - 1);
        if sort_before(flag_key, subject_key, keys, j - 1, i) || j - 1 == i {
            sat64(prior + weights[j - 1])
        } else {
            prior
        }
    }
}

/// An action is eligible when its cumulative weight exceeds the selection
/// threshold.
pub open spec fn action_eligible(
    weights: Seq<int>,
    flag_key: Seq<char>,
    subject_key: Seq<char>,
    keys: Seq<Seq<char>>,
    threshold: int,
    i: int,
) -> bool {
    cum_weight(weights, flag_key, subject_key, keys, i, keys.len() as int) > threshold
}

/// The earliest eligible action in the pseudo-random order among the
/// first `n`.
pub open spec fn pick_upto(
    weights: Seq<int>,
    flag_key: Seq<char>,
    subject_key: Seq<char>,
    keys: Seq<Seq<char>>,
    threshold: int,
    n: int,
) -> Option<int>
    decreases n,
{
    if n <= 0 {
        None
    } else {
        let prior = pick_upto(weights, flag_key, subject_key, keys, threshold, n - 1);
        if action_eligible(weights, flag_key, subject_key, keys, threshold, n - 1) {
            match prior {
                None => Some(n - 1),
                Some(p) => if sort_before(flag_key, subject_key, keys, n - 1, p) {
                    Some(n - 1)
                } else {
                    Some(p)
                },
            }
        } else {
            prior
        }
    }
}

/// The latest action in the pseudo-random order among the first `n`: the
/// fallback when rounding keeps every cumulative weight at or below the
/// threshold.
pub open spec fn last_in_order_upto(
    flag_key: Seq<char>,
    subject_key: Seq<char>,
    keys: Seq<Seq<char>>,
    n: int,
) -> int
    decreases n,
{
    if n <= 1 {
        0
    } else {
        let prior = last_in_order_upto(flag_key, subject_key, keys, n - 1);
        if sort_before(flag_key, subject_key, keys, prior, n - 1) {
            n - 1
        } else {
            prior
        }
    }
}

/// The selected action: the first one, in the per-subject pseudo-random
/// order, whose cumulative weight exceeds the selection threshold; the
/// last in that order when none does.
pub open spec fn selected_action(
    weights: Seq<int>,
    flag_key: Seq<char>,
    subject_key: Seq<char>,
    keys: Seq<Seq<char>>,
    threshold: int,
    n: int,
) -> int {
    match pick_upto(weights, flag_key, subject_key, keys, threshold, n) {
        Some(i) => i,
        None => last_in_order_upto(flag_key, subject_key, keys, n),
    }
}

proof fn lemma_pick_upto_range(
    weights: Seq<int>,
    flag_key: Seq<char>,
    subject_key: Seq<char>,
    keys: Seq<Seq<char>>,
    threshold: int,
    n: int,
)
    ensures
        pick_upto(weights, flag_key, subject_key, keys, threshold, n) matches Some(p) ==> 0 <= p
            < n,
    decreases n,
{
    if n > 0 {
        lemma_pick_upto_range(weights, flag_key, subject_key, keys, threshold, n - 1);
    }
}

proof fn lemma_last_in_order_range(
    flag_key: Seq<char>,
    subject_key: Seq<char>,
    keys: Seq<Seq<char>>,
    n: int,
)
    requires
        n >= 1,
    ensures
        0 <= last_in_order_upto(flag_key, subject_key, keys, n) < n,
    decreases n,
{
    if n > 1 {
        lemma_last_in_order_range(flag_key, subject_key, keys, n - 1);
    }
}

/// The selected action is one of the supplied actions.
pub proof fn lemma_selected_action_range(
    weights: Seq<int>,
    flag_key: Seq<char>,
    subject_key: Seq<char>,
    keys: Seq<Seq<char>>,
    threshold: int,
    n: int,
)
    requires
        n >= 1,
    ensures
        0 <= selected_action(weights, flag_key, subject_key, keys, threshold, n) < n,
{
    lemma_pick_upto_range(weights, flag_key, subject_key, keys, threshold, n);
    lemma_last_in_order_range(flag_key, subject_key, keys, n);
}

/// Computes the ordering hash of every action.
#[verifier::loop_isolation(false)]
fn compute_order_hashes(
    flag_key: &str,
    subject_key: &str,
    actions: &Vec<(String, ContextAttributes)>,
) -> (r: Vec<u64>)
    ensures
        r@.len() == actions@.len(),
        forall|i: int|
            0 <= i < r@.len() ==> r@[i] == action_order_hash(
                flag_key@,
                subject_key@,
                actions@[i].0@,
            ),
{
    let mut hashes: Vec<u64> = Vec::new();
    let n = actions.len();
    let mut i: usize = 0;
    while i < n
        invariant
            0 <= i <= n,
            hashes@.len() == i,
            forall|k: int|
                0 <= k < i ==> hashes@[k] == action_order_hash(
                    flag_key@,
                    subject_key@,
                    actions@[k].0@,
                ),
        decreases n - i,
    {
        let mut parts: Vec<String> = Vec::new();
        parts.push(String::from_str(flag_key));
        parts.push(String::from_str("-"));
        parts.push(String::from_str(subject_key));
        parts.push(String::from_str("-"));
        parts.push(String::from_str(actions[i].0.as_str()));
        proof {
            reveal_with_fuel(crate::sharder::concat_parts, 7);
            assert(parts@.drop_last() =~= parts@.take(4));
            assert(parts@.take(4).drop_last() =~= parts@.take(3));
            assert(parts@.take(3).drop_last() =~= parts@.take(2));
            assert(parts@.take(2).drop_last() =~= parts@.take(1));
            assert(parts@.take(1).drop_last() =~= parts@.take(0));
            assert(parts@.take(0) =~= Seq::<String>::empty());
            assert(crate::sharder::concat_parts(parts@) =~= flag_key@ + "-"@ + subject_key@
                + "-"@ + actions@[i as int].0@);
        }
        let h = crate::sharder::get_md5_shard(&parts, BANDIT_TOTAL_SHARDS);
        hashes.push(h);
        i = i + 1;
    }
    hashes
}

/// Computes the subject's selection threshold in micros.
fn compute_selection_threshold(flag_key: &str, subject_key: &str) -> (r: u64)
    ensures
        r == selection_threshold(flag_key@, subject_key@),
{
    let mut parts: Vec<String> = Vec::new();
    parts.push(String::from_str(flag_key));
    parts.push(String::from_str("-"));
    parts.push(String::from_str(subject_key));
    proof {
        reveal_with_fuel(crate::sharder::concat_parts, 5);
        assert(parts@.drop_last() =~= parts@.take(2));
        assert(parts@.take(2).drop_last() =~= parts@.take(1));
        assert(parts@.take(1).drop_last() =~= parts@.take(0));
        assert(parts@.take(0) =~= Seq::<String>::empty());
        assert(crate::sharder::concat_parts(parts@) =~= flag_key@ + "-"@ + subject_key@);
    }
    let h = crate::sharder::get_md5_shard(&parts, BANDIT_TOTAL_SHARDS);
    h * 100
}

/// Selects the action for the subject, given the weights and ordering
/// hashes.
#[verifier::loop_isolation(false)]
fn select_action(
    weights: &Vec<i64>,
    hashes: &Vec<u64>,
    actions: &Vec<(String, ContextAttributes)>,
    threshold: u64,
    Ghost(flag_key): Ghost<Seq<char>>,
    Ghost(subject_key): Ghost<Seq<char>>,
) -> (r: usize)
    requires
        actions@.len() >= 1,
        weights@.len() == actions@.len(),
        hashes@.len() == actions@.len(),
        forall|i: int|
            0 <= i < hashes@.len() ==> hashes@[i] == action_order_hash(
                flag_key,
                subject_key,
                actions@[i].0@,
            ),
        threshold == selection_threshold(flag_key, subject_key),
    ensures
        r == selected_action(
            weights@.map_values(|x: i64| x as int),
            flag_key,
            subject_key,
            actions@.map_values(|p: (String, ContextAttributes)| p.0@),
            threshold as int,
            actions@.len() as int,
        ),
        0 <= r < actions@.len(),
{
    let ghost wseq = weights@.map_values(|x: i64| x as int);
    let ghost keys = actions@.map_values(|p: (String, ContextAttributes)| p.0@);
    let n = actions.len();
    let mut pick: Option<usize> = None;
    let mut last: usize = 0;
    let mut i: usize = 0;
    while i < n
        invariant
            0 <= i <= n,
            0 <= last < n,
            i == 0 ==> last == 0,
            i > 0 ==> last == last_in_order_upto(flag_key, subject_key, keys, i as int),
            match pick {
                Some(p) => 0 <= p < i && pick_upto(
                    wseq,
                    flag_key,
                    subject_key,
                    keys,
                    threshold as int,
                    i as int,
                ) == Some(p as int),
                None => pick_upto(
                    wseq,
                    flag_key,
                    subject_key,
                    keys,
                    threshold as int,
                    i as int,
                ) is None,
            },
        decreases n - i,
    {
        // the cumulative weight of action i over the whole list
        let mut cum: i64 = 0;
        let mut j: usize = 0;
        while j < n
            invariant
                0 <= j <= n,
                0 <= i < n,
                cum == cum_weight(wseq, flag_key, subject_key, keys, i as int, j as int),
            decreases n - j,
        {
            let before = hashes[j] < hashes[i] || (hashes[j] == hashes[i]
                && crate::text::str_less(actions[j].0.as_str(), actions[i].0.as_str()));
            if before || j == i {
                cum = sat_add(cum, weights[j]);
            }
            j = j + 1;
        }
        proof {
            assert(threshold <= 10_000 * 100) by {
                assert(selection_threshold(flag_key, subject_key) < 10_000 * 100 + 1);
            }
        }
        if cum > threshold as i64 {
            match pick {
                None => {
                    pick = Some(i);
                },
                Some(p) => {
                    let before_p = hashes[i] < hashes[p] || (hashes[i] == hashes[p]
                        && crate::text::str_less(actions[i].0.as_str(), actions[p].0.as_str()));
                    if before_p {
                        pick = Some(i);
                    }
                },
            }
        }
        if i > 0 {
            let last_before_i = hashes[last] < hashes[i] || (hashes[last] == hashes[i]
                && crate::text::str_less(actions[last].0.as_str(), actions[i].0.as_str()));
            if last_before_i {
                last = i;
            }
        }
        i = i + 1;
    }
    match pick {
        Some(p) => p,
        None => last,
    }
}


/// The outcome of one bandit evaluation.
#[derive(Debug, Clone, PartialEq)]
pub struct BanditEvaluationDetails {
    /// Selected action.
    pub action_key: String,
    /// The selected action's weight, in micros.
    pub action_weight: i64,
    /// Distance between the best and the selected action's scores, in
    /// micros.
    pub optimality_gap: i64,
}

impl BanditModelData {
    /// Evaluates the bandit: scores every action, weighs them, and
    /// selects one deterministically for the subject. Fails only when no
    /// actions are supplied.
    pub fn evaluate(
        &self,
        flag_key: &str,
        subject_key: &str,
        subject_attributes: &ContextAttributes,
        actions: &Vec<(String, ContextAttributes)>,
    ) -> (r: Result<
        BanditEvaluationDetails,
        crate::eval_assignment::EvaluationFailure,
    >)
        ensures
            actions@.len() == 0 ==> r == Err::<BanditEvaluationDetails, _>(
                crate::eval_assignment::EvaluationFailure::NoActionsSuppliedForBandit,
            ),
            actions@.len() > 0 ==> ({
                let scores = scores_of(self, actions@, subject_attributes);
                let best = best_action_upto(
                    self,
                    subject_attributes,
                    actions@,
                    actions@.len() as int,
                );
                let keys = actions@.map_values(|p: (String, ContextAttributes)| p.0@);
                let weights = Seq::new(
                    actions@.len(),
                    |i: int| weight_of(self, scores, best, i),
                );
                let threshold = selection_threshold(flag_key@, subject_key@);
                let sel = selected_action(
                    weights,
                    flag_key@,
                    subject_key@,
                    keys,
                    threshold,
                    actions@.len() as int,
                );
                &&& r matches Ok(d)
                &&& d.action_key@ == keys[sel]
                &&& d.action_weight == weight_of(self, scores, best, sel)
                &&& d.optimality_gap == sat64(scores[best] - scores[sel])
            }),
    {
        if actions.len() == 0 {
            return Err(crate::eval_assignment::EvaluationFailure::NoActionsSuppliedForBandit);
        }
        let scores = compute_scores(self, actions, subject_attributes);
        let best = find_best(self, actions, subject_attributes, &scores);
        let weights = compute_weights(self, &scores, best);
        let hashes = compute_order_hashes(flag_key, subject_key, actions);
        let threshold = compute_selection_threshold(flag_key, subject_key);
        let sel = select_action(
            &weights,
            &hashes,
            actions,
            threshold,
            Ghost(flag_key@),
            Ghost(subject_key@),
        );
        proof {
            let sscores = scores_of(self, actions@, subject_attributes);
            assert(scores@.map_values(|x: i64| x as int) =~= sscores);
            let wspec = Seq::new(
                actions@.len(),
                |i: int| weight_of(self, sscores, best as int, i),
            );
            assert(weights@.map_values(|x: i64| x as int) =~= wspec);
        }
        let gap = sat_sub(scores[best], scores[sel]);
        Ok(
            BanditEvaluationDetails {
                action_key: String::from_str(actions[sel].0.as_str()),
                action_weight: weights[sel],
                optimality_gap: gap,
            },
        )
    }
}

} // verus!
