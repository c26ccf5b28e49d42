//! Analytics events emitted by evaluation.
//!
//! An assignment event records which variation a subject was assigned and
//! under which allocation; it is handed to the embedding application for
//! logging. Its view pins every field, so contracts can state exactly what
//! an evaluation emits.

use vstd::prelude::*;
use vstd::string::*;

use crate::attributes::{AttrVal, Attribute, Attributes};
use crate::eval_details::EvalFlagDetails;
use crate::ufc::Timestamp;

verus! {

/// SDK identification attached to every event.
#[derive(Debug, Clone, PartialEq)]
pub struct EventMetaData {
    pub sdk_name: String,
    pub sdk_version: String,
    pub core_version: String,
}

/// The mathematical content of [`EventMetaData`].
pub struct EventMetaDataV {
    pub sdk_name: Seq<char>,
    pub sdk_version: Seq<char>,
    pub core_version: Seq<char>,
}

impl View for EventMetaData {
    type V = EventMetaDataV;

    open spec fn view(&self) -> EventMetaDataV {
        EventMetaDataV {
            sdk_name: self.sdk_name@,
            sdk_version: self.sdk_version@,
            core_version: self.core_version@,
        }
    }
}

impl EventMetaData {
    /// A copy with the same content.
    pub fn duplicate(&self) -> (r: EventMetaData)
        ensures
            r@ == self@,
    {
        EventMetaData {
            sdk_name: String::from_str(self.sdk_name.as_str()),
            sdk_version: String::from_str(self.sdk_version.as_str()),
            core_version: String::from_str(self.core_version.as_str()),
        }
    }
}

/// The content of a subject's attributes as carried by an event: name and
/// value of each entry, in order.
pub open spec fn attrs_content(attrs: &Attributes) -> Seq<(Seq<char>, AttrVal)> {
    attrs.entries@.map_values(|e: Attribute| (e.name@, e.value@))
}

/// An event capturing the assignment of a flag variation to a subject.
#[derive(Debug, Clone, PartialEq)]
pub struct AssignmentEvent {
    /// The flag being assigned.
    pub feature_flag: String,
    /// The allocation the subject matched.
    pub allocation: String,
    /// The experiment identifier: `{flag}-{allocation}`.
    pub experiment: String,
    /// The assigned variation key.
    pub variation: String,
    /// The subject receiving the assignment.
    pub subject: String,
    /// The subject's attributes as supplied by the caller (without the
    /// synthetic `id` that rule evaluation sees).
    pub subject_attributes: Attributes,
    /// When the assignment was evaluated.
    pub timestamp: Timestamp,
    /// SDK identification.
    pub meta_data: EventMetaData,
    /// Extra logging fields from the matched split.
    pub extra_logging: Vec<(String, String)>,
    /// Present when the details-recording evaluator produced this event.
    pub evaluation_details: Option<EvalFlagDetails>,
}

/// The mathematical content of an [`AssignmentEvent`]; the optional
/// evaluation details are observational and not part of it.
pub struct AssignmentEventV {
    pub feature_flag: Seq<char>,
    pub allocation: Seq<char>,
    pub experiment: Seq<char>,
    pub variation: Seq<char>,
    pub subject: Seq<char>,
    pub subject_attributes: Seq<(Seq<char>, AttrVal)>,
    pub timestamp: int,
    pub meta_data: EventMetaDataV,
    pub extra_logging: Seq<(Seq<char>, Seq<char>)>,
}

impl View for AssignmentEvent {
    type V = AssignmentEventV;

    open spec fn view(&self) -> AssignmentEventV {
        AssignmentEventV {
            feature_flag: self.feature_flag@,
            allocation: self.allocation@,
            experiment: self.experiment@,
            variation: self.variation@,
            subject: self.subject@,
            subject_attributes: attrs_content(&self.subject_attributes),
            timestamp: self.timestamp as int,
            meta_data: self.meta_data@,
            extra_logging: self.extra_logging@.map_values(
                |p: (String, String)| (p.0@, p.1@),
            ),
        }
    }
}

impl Attributes {
    /// A copy with the same content.
    pub fn duplicate(&self) -> (r: Attributes)
        ensures
            attrs_content(&r) == attrs_content(self),
            r.entries@.len() == self.entries@.len(),
    {
        let mut entries: Vec<Attribute> = Vec::new();
        let n = self.entries.len();
        let mut i: usize = 0;
        while i < n
            invariant
                0 <= i <= n == self.entries@.len(),
                entries@.len() == i,
                forall|k: int|
                    0 <= k < i ==> #[trigger] entries@[k].name@ == self.entries@[k].name@
                        && entries@[k].value@ == self.entries@[k].value@,
            decreases n - i,
        {
            entries.push(
                Attribute {
                    name: String::from_str(self.entries[i].name.as_str()),
                    value: self.entries[i].value.duplicate(),
                },
            );
            i = i + 1;
        }
        let r = Attributes { entries };
        proof {
            assert(attrs_content(&r) =~= attrs_content(self));
        }
        r
    }
}

/// Copies a list of string pairs, preserving content.
pub fn duplicate_string_pairs(v: &Vec<(String, String)>) -> (r: Vec<(String, String)>)
    ensures
        r@.map_values(|p: (String, String)| (p.0@, p.1@)) == v@.map_values(
            |p: (String, String)| (p.0@, p.1@),
        ),
{
    let mut r: Vec<(String, String)> = Vec::new();
    let n = v.len();
    let mut i: usize = 0;
    while i < n
        invariant
            0 <= i <= n == v@.len(),
            r@.len() == i,
            forall|k: int|
                0 <= k < i ==> (#[trigger] r@[k]).0@ == v@[k].0@ && r@[k].1@ == v@[k].1@,
        decreases n - i,
    {
        r.push((String::from_str(v[i].0.as_str()), String::from_str(v[i].1.as_str())));
        i = i + 1;
    }
    proof {
        assert(r@.map_values(|p: (String, String)| (p.0@, p.1@)) =~= v@.map_values(
            |p: (String, String)| (p.0@, p.1@),
        ));
    }
    r
}

} // verus!
