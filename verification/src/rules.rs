//! Rule and condition evaluation.
//!
//! A rule matches a subject when every one of its conditions matches. A
//! condition reads one attribute (with `id` falling back to the subject
//! key) and applies its operator: regular-expression match, numeric or
//! semantic-version comparison, case-insensitive set membership, or a null
//! check. Negated operators hold whenever their positive form does not, so
//! a missing attribute fails `MATCHES` and satisfies `NOT_MATCHES`.

use vstd::prelude::*;
use vstd::string::*;

use crate::attributes::{augmented_get, AttrVal, AttributeValue, Attributes};
use crate::numbers::{dec_micros, is_decimal, is_semver, micros_string, parse_decimal_micros,
    parse_semver, render_micros, semver_val};
use crate::text::{lower, str_eq_ignore_case};

verus! {

/// A condition's operator.
#[derive(Debug, Clone, Copy, PartialEq, Eq, Structural)]
pub enum Operator {
    Matches,
    NotMatches,
    Gte,
    Gt,
    Lte,
    Lt,
    OneOf,
    NotOneOf,
    IsNull,
}

/// A condition's right-hand side.
#[derive(Debug, Clone, PartialEq)]
pub enum ConditionOperand {
    Numeric(i64),
    String(String),
    Boolean(bool),
    List(Vec<String>),
}

/// A single predicate over one attribute.
#[derive(Debug, Clone, PartialEq)]
pub struct Condition {
    pub attribute: String,
    pub operator: Operator,
    pub operand: ConditionOperand,
}

/// A conjunction of conditions.
#[derive(Debug, Clone, PartialEq)]
pub struct Rule {
    pub conditions: Vec<Condition>,
}

/// Whether the pattern compiles and matches the text, as the `regex` crate
/// decides it; `None` when the pattern does not compile.
pub uninterp spec fn regex_eval(pattern: Seq<char>, text: Seq<char>) -> Option<bool>;

/// Relies on regex::Regex::new and regex::Regex::is_match: whether the
/// pattern compiles and matches the text, a function of the two strings
/// alone.
#[verifier::external_body]
fn regex_is_match(pattern: &str, text: &str) -> (r: Option<bool>)
    ensures
        r == regex_eval(pattern@, text@),
{
    match regex::Regex::new(pattern) {
        Ok(re) => Some(re.is_match(text)),
        Err(_) => None,
    }
}

/// The numeric reading of an attribute: numeric values directly, strings
/// through decimal coercion.
pub open spec fn attr_number(v: AttrVal) -> Option<int> {
    match v {
        AttrVal::Numeric(m) => Some(m),
        AttrVal::Categorical(s) => if is_decimal(s) {
            Some(dec_micros(s))
        } else {
            None
        },
        _ => None,
    }
}

/// The string reading of an attribute: categorical values directly,
/// booleans as `true`/`false`, numbers as their decimal rendering. Only
/// null has none.
pub open spec fn attr_string(v: AttrVal) -> Option<Seq<char>> {
    match v {
        AttrVal::Categorical(s) => Some(s),
        AttrVal::Boolean(b) => Some(
            if b {
                "true"@
            } else {
                "false"@
            },
        ),
        AttrVal::Numeric(m) => Some(micros_string(m)),
        AttrVal::Null => None,
    }
}

/// The numeric reading of an operand.
pub open spec fn operand_number(op: ConditionOperand) -> Option<int> {
    match op {
        ConditionOperand::Numeric(m) => Some(m as int),
        ConditionOperand::String(s) => if is_decimal(s@) {
            Some(dec_micros(s@))
        } else {
            None
        },
        _ => None,
    }
}

/// Lexicographic order on version triples.
pub open spec fn semver_le(a: (int, int, int), b: (int, int, int)) -> bool {
    a.0 < b.0 || (a.0 == b.0 && (a.1 < b.1 || (a.1 == b.1 && a.2 <= b.2)))
}

/// An ordering comparison holds. When the operand is a semantic version and
/// the attribute is a string that also parses as one, both sides compare as
/// versions; otherwise both coerce to numbers.
pub open spec fn comparison_matches(op: Operator, av: AttrVal, operand: ConditionOperand) -> bool {
    if {
        &&& operand matches ConditionOperand::String(os)
        &&& is_semver(os@)
        &&& av matches AttrVal::Categorical(attr_s)
        &&& is_semver(attr_s)
    } {
        let a = semver_val(av->Categorical_0);
        let b = semver_val(operand->String_0@);
        match op {
            Operator::Gte => semver_le(b, a),
            Operator::Gt => semver_le(b, a) && a != b,
            Operator::Lte => semver_le(a, b),
            Operator::Lt => semver_le(a, b) && a != b,
            _ => false,
        }
    } else {
        match (attr_number(av), operand_number(operand)) {
            (Some(a), Some(b)) => match op {
                Operator::Gte => a >= b,
                Operator::Gt => a > b,
                Operator::Lte => a <= b,
                Operator::Lt => a < b,
                _ => false,
            },
            _ => false,
        }
    }
}

/// The positive regular-expression match: the attribute is present, has a
/// string reading, and the operand is a pattern that compiles and matches.
pub open spec fn regex_condition_matches(av: Option<AttrVal>, operand: ConditionOperand) -> bool {
    &&& av matches Some(v)
    &&& attr_string(v) matches Some(s)
    &&& operand matches ConditionOperand::String(pat)
    &&& regex_eval(pat@, s) == Some(true)
}

/// The positive membership test: the attribute has a string reading equal,
/// ignoring ASCII case, to some entry of the operand list.
pub open spec fn one_of_matches(av: Option<AttrVal>, operand: ConditionOperand) -> bool {
    &&& av matches Some(v)
    &&& attr_string(v) matches Some(s)
    &&& operand matches ConditionOperand::List(list)
    &&& exists|i: int| 0 <= i < list@.len() && lower(#[trigger] list@[i]@) == lower(s)
}

/// Whether the attribute is missing or null.
pub open spec fn is_null_value(av: Option<AttrVal>) -> bool {
    av is None || av matches Some(AttrVal::Null)
}

/// The meaning of one condition against a subject's (augmented) attributes.
pub open spec fn condition_matches(c: Condition, attrs: &Attributes, subject_key: Seq<char>) -> bool {
    let av = augmented_get(attrs, subject_key, c.attribute@);
    match c.operator {
        Operator::Matches => regex_condition_matches(av, c.operand),
        Operator::NotMatches => !regex_condition_matches(av, c.operand),
        Operator::OneOf => one_of_matches(av, c.operand),
        Operator::NotOneOf => !one_of_matches(av, c.operand),
        Operator::IsNull => (c.operand matches ConditionOperand::Boolean(b) && b
            == is_null_value(av)),
        _ => (av matches Some(v) && comparison_matches(c.operator, v, c.operand)),
    }
}

/// The meaning of a rule: all of its conditions hold.
pub open spec fn rule_matches(r: Rule, attrs: &Attributes, subject_key: Seq<char>) -> bool {
    forall|i: int|
        0 <= i < r.conditions@.len() ==> #[trigger] condition_matches(
            r.conditions@[i],
            attrs,
            subject_key,
        )
}

impl AttributeValue {
    /// A copy with the same content.
    pub fn duplicate(&self) -> (r: AttributeValue)
        ensures
            r@ == self@,
    {
        match self {
            AttributeValue::Numeric(m) => AttributeValue::Numeric(*m),
            AttributeValue::Categorical(s) => AttributeValue::Categorical(
                String::from_str(s.as_str()),
            ),
            AttributeValue::Boolean(b) => AttributeValue::Boolean(*b),
            AttributeValue::Null => AttributeValue::Null,
        }
    }

    /// The string reading of this value, per [`attr_string`].
    fn as_string_value(&self) -> (r: Option<String>)
        ensures
            match r {
                Some(s) => attr_string(self@) == Some(s@),
                None => attr_string(self@) is None,
            },
    {
        match self {
            AttributeValue::Categorical(s) => Some(String::from_str(s.as_str())),
            AttributeValue::Boolean(b) => {
                if *b {
                    Some(String::from_str("true"))
                } else {
                    Some(String::from_str("false"))
                }
            },
            AttributeValue::Numeric(m) => Some(render_micros(*m)),
            AttributeValue::Null => None,
        }
    }

    /// The numeric reading of this value, per [`attr_number`].
    fn as_number(&self) -> (r: Option<i64>)
        ensures
            match r {
                Some(m) => attr_number(self@) == Some(m as int),
                None => attr_number(self@) is None,
            },
    {
        match self {
            AttributeValue::Numeric(m) => Some(*m),
            AttributeValue::Categorical(s) => parse_decimal_micros(s.as_str()),
            _ => None,
        }
    }
}

impl ConditionOperand {
    /// The numeric reading of this operand, per [`operand_number`].
    fn as_number(&self) -> (r: Option<i64>)
        ensures
            match r {
                Some(m) => operand_number(*self) == Some(m as int),
                None => operand_number(*self) is None,
            },
    {
        match self {
            ConditionOperand::Numeric(m) => Some(*m),
            ConditionOperand::String(s) => parse_decimal_micros(s.as_str()),
            _ => None,
        }
    }
}

/// Evaluates one condition against the augmented attribute view.
pub fn eval_condition(c: &Condition, attrs: &Attributes, subject_key: &str) -> (r: bool)
    ensures
        r == condition_matches(*c, attrs, subject_key@),
{
    let looked = attrs.get(c.attribute.as_str());
    let av: Option<AttributeValue> = match looked {
        Some(v) => Some(v.duplicate()),
        None => {
            if crate::text::str_eq(c.attribute.as_str(), "id") {
                Some(AttributeValue::Categorical(String::from_str(subject_key)))
            } else {
                None
            }
        },
    };
    proof {
        let gav = augmented_get(attrs, subject_key@, c.attribute@);
        match &av {
            Some(v) => {
                assert(gav == Some(v@));
            },
            None => {
                assert(gav is None);
            },
        }
    }
    match c.operator {
        Operator::Matches => eval_regex(&av, &c.operand),
        Operator::NotMatches => !eval_regex(&av, &c.operand),
        Operator::OneOf => eval_one_of(&av, &c.operand),
        Operator::NotOneOf => !eval_one_of(&av, &c.operand),
        Operator::IsNull => {
            let null = match &av {
                None => true,
                Some(AttributeValue::Null) => true,
                _ => false,
            };
            match &c.operand {
                ConditionOperand::Boolean(b) => *b == null,
                _ => false,
            }
        },
        _ => {
            match &av {
                Some(v) => eval_comparison(c.operator, v, &c.operand),
                None => false,
            }
        },
    }
}

/// Evaluates the positive regular-expression match.
fn eval_regex(av: &Option<AttributeValue>, operand: &ConditionOperand) -> (r: bool)
    ensures
        r == regex_condition_matches(view_of_option(av), *operand),
{
    match (av, operand) {
        (Some(v), ConditionOperand::String(pat)) => {
            match v.as_string_value() {
                Some(s) => {
                    match regex_is_match(pat.as_str(), s.as_str()) {
                        Some(true) => true,
                        _ => false,
                    }
                },
                None => false,
            }
        },
        _ => false,
    }
}

/// Evaluates the positive membership test.
#[verifier::loop_isolation(false)]
fn eval_one_of(av: &Option<AttributeValue>, operand: &ConditionOperand) -> (r: bool)
    ensures
        r == one_of_matches(view_of_option(av), *operand),
{
    match (av, operand) {
        (Some(v), ConditionOperand::List(list)) => {
            match v.as_string_value() {
                Some(s) => {
                    let n = list.len();
                    let mut i: usize = 0;
                    while i < n
                        invariant
                            0 <= i <= n == list@.len(),
                            forall|k: int| 0 <= k < i ==> lower(#[trigger] list@[k]@) != lower(s@),
                        decreases n - i,
                    {
                        if str_eq_ignore_case(list[i].as_str(), s.as_str()) {
                            proof {
                                assert(exists|j: int|
                                    0 <= j < list@.len() && lower(#[trigger] list@[j]@) == lower(
                                        s@,
                                    )) by {
                                    assert(0 <= i < list@.len() && lower(list@[i as int]@)
                                        == lower(s@));
                                }
                            }
                            return true;
                        }
                        i = i + 1;
                    }
                    false
                },
                None => false,
            }
        },
        _ => false,
    }
}

/// Evaluates an ordering comparison.
fn eval_comparison(op: Operator, v: &AttributeValue, operand: &ConditionOperand) -> (r: bool)
    ensures
        r == comparison_matches(op, v@, *operand),
{
    // semantic-version path: both sides must parse as versions
    let semver_result: Option<bool> = match (v, operand) {
        (AttributeValue::Categorical(attr_s), ConditionOperand::String(os)) => {
            match (parse_semver(attr_s.as_str()), parse_semver(os.as_str())) {
                (Some(a), Some(b)) => {
                    proof {
                        crate::numbers::lemma_semver_val_bounds(attr_s@);
                        crate::numbers::lemma_semver_val_bounds(os@);
                    }
                    let le = a.0 < b.0 || (a.0 == b.0 && (a.1 < b.1 || (a.1 == b.1 && a.2
                        <= b.2)));
                    let ge = b.0 < a.0 || (b.0 == a.0 && (b.1 < a.1 || (b.1 == a.1 && b.2
                        <= a.2)));
                    Some(
                        match op {
                            Operator::Gte => ge,
                            Operator::Gt => ge && !(le && ge),
                            Operator::Lte => le,
                            Operator::Lt => le && !(le && ge),
                            _ => false,
                        },
                    )
                },
                (_, Some(_)) => {
                    proof {
                        crate::numbers::lemma_semver_not_decimal(os@);
                    }
                    Some(false)
                },
                _ => None,
            }
        },
        _ => None,
    };
    match semver_result {
        Some(r) => r,
        None => {
            match (v.as_number(), operand.as_number()) {
                (Some(a), Some(b)) => match op {
                    Operator::Gte => a >= b,
                    Operator::Gt => a > b,
                    Operator::Lte => a <= b,
                    Operator::Lt => a < b,
                    _ => false,
                },
                _ => false,
            }
        },
    }
}

/// The view of an optional attribute value.
pub open spec fn view_of_option(av: &Option<AttributeValue>) -> Option<AttrVal> {
    match av {
        Some(v) => Some(v@),
        None => None,
    }
}

/// Evaluates a rule: true when every condition matches.
pub fn eval_rule(r: &Rule, attrs: &Attributes, subject_key: &str) -> (result: bool)
    ensures
        result == rule_matches(*r, attrs, subject_key@),
{
    let n = r.conditions.len();
    let mut i: usize = 0;
    while i < n
        invariant
            0 <= i <= n == r.conditions@.len(),
            forall|k: int|
                0 <= k < i ==> #[trigger] condition_matches(
                    r.conditions@[k],
                    attrs,
                    subject_key@,
                ),
        decreases n - i,
    {
        if !eval_condition(&r.conditions[i], attrs, subject_key) {
            return false;
        }
        i = i + 1;
    }
    true
}

} // verus!
