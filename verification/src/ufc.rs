//! The flag-configuration model.
//!
//! A configuration snapshot carries flags; a flag carries typed variations
//! and an ordered list of allocations; an allocation gates by time and
//! rules and splits matching subjects across variations by shards. Every
//! type has a mathematical view used in contracts, so that values with
//! equal content are equal.

use vstd::prelude::*;

use crate::attributes::Attributes;
use crate::rules::Rule;
use crate::sharder::shard_value;
use crate::text::str_eq;

verus! {

/// Milliseconds since the Unix epoch.
pub type Timestamp = i64;

/// The type of a flag's variations.
#[derive(Debug, Clone, Copy, PartialEq, Eq, Structural)]
pub enum VariationType {
    String,
    Integer,
    Numeric,
    Boolean,
    Json,
}

/// A variation value as it appears in the configuration. Numbers are
/// fixed-point micros; JSON values are carried as their source text.
#[derive(Debug, Clone, PartialEq)]
pub enum Value {
    Boolean(bool),
    Numeric(i64),
    String(String),
}

/// The mathematical content of a [`Value`].
pub enum ValueV {
    Boolean(bool),
    Numeric(int),
    String(Seq<char>),
}

impl View for Value {
    type V = ValueV;

    open spec fn view(&self) -> ValueV {
        match self {
            Value::Boolean(b) => ValueV::Boolean(*b),
            Value::Numeric(m) => ValueV::Numeric(*m as int),
            Value::String(s) => ValueV::String(s@),
        }
    }
}

/// A variation value coerced to the flag's type.
#[derive(Debug, Clone, PartialEq)]
pub enum AssignmentValue {
    String(String),
    Integer(i64),
    Numeric(i64),
    Boolean(bool),
    Json(String),
}

/// The mathematical content of an [`AssignmentValue`].
pub enum AssignmentValueV {
    String(Seq<char>),
    Integer(int),
    Numeric(int),
    Boolean(bool),
    Json(Seq<char>),
}

impl View for AssignmentValue {
    type V = AssignmentValueV;

    open spec fn view(&self) -> AssignmentValueV {
        match self {
            AssignmentValue::String(s) => AssignmentValueV::String(s@),
            AssignmentValue::Integer(i) => AssignmentValueV::Integer(*i as int),
            AssignmentValue::Numeric(m) => AssignmentValueV::Numeric(*m as int),
            AssignmentValue::Boolean(b) => AssignmentValueV::Boolean(*b),
            AssignmentValue::Json(s) => AssignmentValueV::Json(s@),
        }
    }
}

/// The coercion of a configuration value to an assignment value of the
/// given type, or `None` when the shapes do not agree. Integer variations
/// must be whole numbers.
pub open spec fn coerce_value(v: ValueV, ty: VariationType) -> Option<AssignmentValueV> {
    match (ty, v) {
        (VariationType::String, ValueV::String(s)) => Some(AssignmentValueV::String(s)),
        (VariationType::Json, ValueV::String(s)) => Some(AssignmentValueV::Json(s)),
        (VariationType::Integer, ValueV::Numeric(m)) => if m % 1_000_000 == 0 {
            Some(AssignmentValueV::Integer(m / 1_000_000))
        } else {
            None
        },
        (VariationType::Numeric, ValueV::Numeric(m)) => Some(AssignmentValueV::Numeric(m)),
        (VariationType::Boolean, ValueV::Boolean(b)) => Some(AssignmentValueV::Boolean(b)),
        _ => None,
    }
}

impl Value {
    /// Coerces this value to an assignment value of type `ty`.
    pub fn to_assignment_value(&self, ty: VariationType) -> (r: Option<AssignmentValue>)
        ensures
            match r {
                Some(av) => coerce_value(self@, ty) == Some(av@),
                None => coerce_value(self@, ty) is None,
            },
    {
        match (ty, self) {
            (VariationType::String, Value::String(s)) => Some(
                AssignmentValue::String(String::from_str(s.as_str())),
            ),
            (VariationType::Json, Value::String(s)) => Some(
                AssignmentValue::Json(String::from_str(s.as_str())),
            ),
            (VariationType::Integer, Value::Numeric(m)) => {
                if *m % 1_000_000i64 == 0 {
                    Some(AssignmentValue::Integer(*m / 1_000_000))
                } else {
                    None
                }
            },
            (VariationType::Numeric, Value::Numeric(m)) => Some(AssignmentValue::Numeric(*m)),
            (VariationType::Boolean, Value::Boolean(b)) => Some(AssignmentValue::Boolean(*b)),
            _ => None,
        }
    }
}

impl AssignmentValue {
    /// A copy with the same content.
    pub fn duplicate(&self) -> (r: AssignmentValue)
        ensures
            r@ == self@,
    {
        match self {
            AssignmentValue::String(s) => AssignmentValue::String(String::from_str(s.as_str())),
            AssignmentValue::Integer(i) => AssignmentValue::Integer(*i),
            AssignmentValue::Numeric(m) => AssignmentValue::Numeric(*m),
            AssignmentValue::Boolean(b) => AssignmentValue::Boolean(*b),
            AssignmentValue::Json(s) => AssignmentValue::Json(String::from_str(s.as_str())),
        }
    }
}

impl Value {
    /// A copy with the same content.
    pub fn duplicate(&self) -> (r: Value)
        ensures
            r@ == self@,
    {
        match self {
            Value::Boolean(b) => Value::Boolean(*b),
            Value::Numeric(m) => Value::Numeric(*m),
            Value::String(s) => Value::String(String::from_str(s.as_str())),
        }
    }
}

/// A keyed variation.
#[derive(Debug, Clone, PartialEq)]
pub struct Variation {
    pub key: String,
    pub value: Value,
}

/// A half-open interval `[start, end)` of shard indices.
#[derive(Debug, Clone, Copy, PartialEq, Eq, Structural)]
pub struct ShardRange {
    pub start: u64,
    pub end: u64,
}

impl ShardRange {
    /// Whether the range contains the shard index.
    pub open spec fn spec_contains(&self, h: u64) -> bool {
        self.start <= h < self.end
    }

    pub fn contains(&self, h: u64) -> (r: bool)
        ensures
            r == self.spec_contains(h),
    {
        self.start <= h && h < self.end
    }
}

/// A salted gate on the subject's shard index.
#[derive(Debug, Clone, PartialEq)]
pub struct Shard {
    pub salt: String,
    pub ranges: Vec<ShardRange>,
}

/// The string hashed for a shard: `salt`, `-`, subject key.
pub open spec fn shard_input(salt: Seq<char>, subject_key: Seq<char>) -> Seq<char> {
    salt + "-"@ + subject_key
}

/// Whether the subject falls in any of the shard's ranges.
pub open spec fn shard_matches(shard: Shard, subject_key: Seq<char>, total_shards: u64) -> bool {
    exists|i: int|
        0 <= i < shard.ranges@.len() && (#[trigger] shard.ranges@[i]).spec_contains(
            shard_value(shard_input(shard.salt@, subject_key), total_shards) as u64,
        )
}

impl Shard {
    /// Whether `subject_key` falls in this shard.
    pub fn matches(&self, subject_key: &str, total_shards: u64) -> (r: bool)
        requires
            total_shards > 0,
        ensures
            r == shard_matches(*self, subject_key@, total_shards),
    {
        let mut parts: Vec<String> = Vec::new();
        parts.push(String::from_str(self.salt.as_str()));
        parts.push(String::from_str("-"));
        parts.push(String::from_str(subject_key));
        proof {
            reveal_with_fuel(crate::sharder::concat_parts, 5);
            assert(parts@.drop_last() =~= parts@.take(2));
            assert(parts@.take(2).drop_last() =~= parts@.take(1));
            assert(parts@.take(1).drop_last() =~= parts@.take(0));
            assert(parts@.take(0) =~= Seq::<String>::empty());
            assert(crate::sharder::concat_parts(parts@) =~= shard_input(
                self.salt@,
                subject_key@,
            ));
        }
        let h = crate::sharder::get_md5_shard(&parts, total_shards);
        let n = self.ranges.len();
        let mut i: usize = 0;
        while i < n
            invariant
                0 <= i <= n == self.ranges@.len(),
                forall|k: int|
                    0 <= k < i ==> !(#[trigger] self.ranges@[k]).spec_contains(
                        shard_value(shard_input(self.salt@, subject_key@), total_shards) as u64,
                    ),
                h == shard_value(shard_input(self.salt@, subject_key@), total_shards),
                h < total_shards,
            decreases n - i,
        {
            if self.ranges[i].contains(h) {
                return true;
            }
            i = i + 1;
        }
        false
    }
}

/// A variation arm within an allocation, gated by shards.
#[derive(Debug, Clone, PartialEq)]
pub struct Split {
    pub variation_key: String,
    pub shards: Vec<Shard>,
    pub extra_logging: Vec<(String, String)>,
}

/// A split matches when the subject matches all of its shards.
pub open spec fn split_matches(split: Split, subject_key: Seq<char>, total_shards: u64) -> bool {
    forall|i: int|
        0 <= i < split.shards@.len() ==> #[trigger] shard_matches(
            split.shards@[i],
            subject_key,
            total_shards,
        )
}

impl Split {
    /// Whether `subject_key` matches every shard of this split.
    pub fn matches(&self, subject_key: &str, total_shards: u64) -> (r: bool)
        requires
            total_shards > 0,
        ensures
            r == split_matches(*self, subject_key@, total_shards),
    {
        let n = self.shards.len();
        let mut i: usize = 0;
        while i < n
            invariant
                total_shards > 0,
                0 <= i <= n == self.shards@.len(),
                forall|k: int|
                    0 <= k < i ==> #[trigger] shard_matches(
                        self.shards@[k],
                        subject_key@,
                        total_shards,
                    ),
            decreases n - i,
        {
            if !self.shards[i].matches(subject_key, total_shards) {
                return false;
            }
            i = i + 1;
        }
        true
    }
}

/// An ordered bucket within a flag, gated by time and rules.
#[derive(Debug, Clone, PartialEq)]
pub struct Allocation {
    pub key: String,
    pub rules: Vec<Rule>,
    pub start_at: Option<Timestamp>,
    pub end_at: Option<Timestamp>,
    pub splits: Vec<Split>,
    pub do_log: bool,
}

/// A keyed flag, or the record that its configuration failed to decode.
#[derive(Debug, Clone, PartialEq)]
pub enum TryParse {
    Parsed(Flag),
    ParseFailed,
}

/// A feature flag.
#[derive(Debug, Clone, PartialEq)]
pub struct Flag {
    pub key: String,
    pub enabled: bool,
    pub variation_type: VariationType,
    pub variations: Vec<Variation>,
    pub allocations: Vec<Allocation>,
    pub total_shards: u64,
}

/// One keyed entry of the flag table.
#[derive(Debug, Clone, PartialEq)]
pub struct FlagEntry {
    pub key: String,
    pub flag: TryParse,
}

/// A configuration snapshot's flags.
#[derive(Debug, Clone, PartialEq)]
pub struct UniversalFlagConfig {
    pub flags: Vec<FlagEntry>,
    pub environment_name: String,
    pub created_at: Timestamp,
}

/// The entry bound to `key`: the first entry with that key.
pub open spec fn flags_get(entries: Seq<FlagEntry>, key: Seq<char>) -> Option<TryParse>
    decreases entries.len(),
{
    if entries.len() == 0 {
        None
    } else if entries[0].key@ == key {
        Some(entries[0].flag)
    } else {
        flags_get(entries.drop_first(), key)
    }
}

proof fn lemma_flags_get_skip(entries: Seq<FlagEntry>, key: Seq<char>, i: int)
    requires
        0 <= i <= entries.len(),
        forall|k: int| 0 <= k < i ==> entries[k].key@ != key,
    ensures
        flags_get(entries, key) == flags_get(entries.skip(i), key),
    decreases i,
{
    if i > 0 {
        assert(entries.skip(1).skip(i - 1) == entries.skip(i));
        assert(forall|k: int|
            0 <= k < i - 1 ==> #[trigger] entries.skip(1)[k].key@ == entries[k + 1].key@);
        lemma_flags_get_skip(entries.skip(1), key, i - 1);
        assert(entries.drop_first() == entries.skip(1));
    } else {
        assert(entries.skip(0) == entries);
    }
}

impl UniversalFlagConfig {
    /// The flag entry stored under `flag_key`, if any.
    pub open spec fn spec_get_flag(&self, flag_key: Seq<char>) -> Option<TryParse> {
        flags_get(self.flags@, flag_key)
    }

    /// Looks the entry named `flag_key` up.
    pub fn lookup(&self, flag_key: &str) -> (r: Option<&TryParse>)
        ensures
            match r {
                Some(t) => self.spec_get_flag(flag_key@) == Some(*t),
                None => self.spec_get_flag(flag_key@) is None,
            },
    {
        let n = self.flags.len();
        let mut i: usize = 0;
        while i < n
            invariant
                0 <= i <= n == self.flags@.len(),
                forall|k: int| 0 <= k < i ==> self.flags@[k].key@ != flag_key@,
            decreases n - i,
        {
            if str_eq(self.flags[i].key.as_str(), flag_key) {
                proof {
                    lemma_flags_get_skip(self.flags@, flag_key@, i as int);
                    assert(self.flags@.skip(i as int)[0] == self.flags@[i as int]);
                }
                return Some(&self.flags[i].flag);
            }
            i = i + 1;
        }
        proof {
            lemma_flags_get_skip(self.flags@, flag_key@, n as int);
        }
        None
    }
}

/// The variation bound to `key`: the first variation with that key.
pub open spec fn variations_get(vars: Seq<Variation>, key: Seq<char>) -> Option<Variation>
    decreases vars.len(),
{
    if vars.len() == 0 {
        None
    } else if vars[0].key@ == key {
        Some(vars[0])
    } else {
        variations_get(vars.drop_first(), key)
    }
}

proof fn lemma_variations_get_skip(vars: Seq<Variation>, key: Seq<char>, i: int)
    requires
        0 <= i <= vars.len(),
        forall|k: int| 0 <= k < i ==> vars[k].key@ != key,
    ensures
        variations_get(vars, key) == variations_get(vars.skip(i), key),
    decreases i,
{
    if i > 0 {
        assert(vars.skip(1).skip(i - 1) == vars.skip(i));
        assert(forall|k: int| 0 <= k < i - 1 ==> #[trigger] vars.skip(1)[k].key@ == vars[k
            + 1].key@);
        lemma_variations_get_skip(vars.skip(1), key, i - 1);
        assert(vars.drop_first() == vars.skip(1));
    } else {
        assert(vars.skip(0) == vars);
    }
}

impl Flag {
    /// The variation stored under `key`, if any.
    pub open spec fn spec_get_variation(&self, key: Seq<char>) -> Option<Variation> {
        variations_get(self.variations@, key)
    }

    /// Looks the variation named `key` up.
    pub fn get_variation(&self, key: &str) -> (r: Option<&Variation>)
        ensures
            match r {
                Some(v) => self.spec_get_variation(key@) == Some(*v),
                None => self.spec_get_variation(key@) is None,
            },
    {
        let n = self.variations.len();
        let mut i: usize = 0;
        while i < n
            invariant
                0 <= i <= n == self.variations@.len(),
                forall|k: int| 0 <= k < i ==> self.variations@[k].key@ != key@,
            decreases n - i,
        {
            if str_eq(self.variations[i].key.as_str(), key) {
                proof {
                    lemma_variations_get_skip(self.variations@, key@, i as int);
                    assert(self.variations@.skip(i as int)[0] == self.variations@[i as int]);
                }
                return Some(&self.variations[i]);
            }
            i = i + 1;
        }
        proof {
            lemma_variations_get_skip(self.variations@, key@, n as int);
        }
        None
    }
}

} // verus!
