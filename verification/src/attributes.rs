//! Subject and action attributes.
//!
//! An attribute value is numeric (fixed-point micros), categorical (a
//! string), boolean, or null. A subject's attributes form an association
//! list looked up by name; the first entry with a given name wins. In
//! contracts an attribute value is seen through its mathematical view
//! [`AttrVal`], so that two values with equal content are equal.

use vstd::prelude::*;

use crate::text::str_eq;

verus! {

/// The value of a single subject or action attribute.
///
/// Numeric values are fixed-point: a count of millionths.
#[derive(Debug, Clone, PartialEq)]
pub enum AttributeValue {
    Numeric(i64),
    Categorical(String),
    Boolean(bool),
    Null,
}

/// The mathematical content of an [`AttributeValue`].
pub enum AttrVal {
    Numeric(int),
    Categorical(Seq<char>),
    Boolean(bool),
    Null,
}

impl View for AttributeValue {
    type V = AttrVal;

    open spec fn view(&self) -> AttrVal {
        match self {
            AttributeValue::Numeric(m) => AttrVal::Numeric(*m as int),
            AttributeValue::Categorical(s) => AttrVal::Categorical(s@),
            AttributeValue::Boolean(b) => AttrVal::Boolean(*b),
            AttributeValue::Null => AttrVal::Null,
        }
    }
}

/// A named attribute.
#[derive(Debug, Clone, PartialEq)]
pub struct Attribute {
    pub name: String,
    pub value: AttributeValue,
}

/// A subject's attributes: an association list; the first entry with a
/// given name wins.
#[derive(Debug, Clone, PartialEq)]
pub struct Attributes {
    pub entries: Vec<Attribute>,
}

/// The value bound to `name` in `entries`: the first entry with that name.
pub open spec fn entries_get(entries: Seq<Attribute>, name: Seq<char>) -> Option<AttrVal>
    decreases entries.len(),
{
    if entries.len() == 0 {
        None
    } else if entries[0].name@ == name {
        Some(entries[0].value@)
    } else {
        entries_get(entries.drop_first(), name)
    }
}

proof fn lemma_entries_get_skip(entries: Seq<Attribute>, name: Seq<char>, i: int)
    requires
        0 <= i <= entries.len(),
        forall|k: int| 0 <= k < i ==> entries[k].name@ != name,
    ensures
        entries_get(entries, name) == entries_get(entries.skip(i), name),
    decreases i,
{
    if i > 0 {
        assert(entries.skip(1).skip(i - 1) == entries.skip(i));
        assert(forall|k: int|
            0 <= k < i - 1 ==> #[trigger] entries.skip(1)[k].name@ == entries[k + 1].name@);
        lemma_entries_get_skip(entries.skip(1), name, i - 1);
        assert(entries.drop_first() == entries.skip(1));
    } else {
        assert(entries.skip(0) == entries);
    }
}

impl Attributes {
    /// The value bound to `name`, if any.
    pub open spec fn spec_get(&self, name: Seq<char>) -> Option<AttrVal> {
        entries_get(self.entries@, name)
    }

    /// No attributes.
    pub fn new() -> (r: Attributes)
        ensures
            r.entries@.len() == 0,
    {
        Attributes { entries: Vec::new() }
    }

    /// Looks the attribute named `name` up.
    pub fn get(&self, name: &str) -> (r: Option<&AttributeValue>)
        ensures
            match r {
                Some(v) => self.spec_get(name@) == Some(v@),
                None => self.spec_get(name@) is None,
            },
    {
        let n = self.entries.len();
        let mut i: usize = 0;
        while i < n
            invariant
                0 <= i <= n == self.entries@.len(),
                forall|k: int| 0 <= k < i ==> self.entries@[k].name@ != name@,
            decreases n - i,
        {
            if str_eq(self.entries[i].name.as_str(), name) {
                proof {
                    lemma_entries_get_skip(self.entries@, name@, i as int);
                    assert(self.entries@.skip(i as int)[0] == self.entries@[i as int]);
                }
                return Some(&self.entries[i].value);
            }
            i = i + 1;
        }
        proof {
            lemma_entries_get_skip(self.entries@, name@, n as int);
        }
        None
    }

    /// Binds `name` to `value`, appending; an earlier binding of the same
    /// name keeps precedence.
    pub fn push(&mut self, name: String, value: AttributeValue)
        ensures
            final(self).entries@ == old(self).entries@.push(
                Attribute { name: name, value: value },
            ),
    {
        self.entries.push(Attribute { name, value });
    }
}

/// The attribute view that rule evaluation sees: the subject's attributes,
/// with `id` falling back to the subject key when not bound. Emitted events
/// carry the un-augmented attributes.
pub open spec fn augmented_get(attrs: &Attributes, subject_key: Seq<char>, name: Seq<char>) -> Option<
    AttrVal,
> {
    match attrs.spec_get(name) {
        Some(v) => Some(v),
        None => if name == "id"@ {
            Some(AttrVal::Categorical(subject_key))
        } else {
            None
        },
    }
}

} // verus!
