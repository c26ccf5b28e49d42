//! The configuration snapshot.
//!
//! A snapshot bundles the flag table, the bandit models and the
//! flag-to-bandit associations, together with the instant it was fetched.
//! Snapshots are immutable: evaluation reads them and never changes them.

use vstd::prelude::*;

use crate::bandits::BanditModel;
use crate::text::str_eq;
use crate::ufc::{Timestamp, TryParse, UniversalFlagConfig};

verus! {

/// One keyed bandit model.
#[derive(Debug, Clone, PartialEq)]
pub struct BanditEntry {
    pub key: String,
    pub model: BanditModel,
}

/// One flag-to-bandit association: assigning `variation_value` under
/// `flag_key` hands action selection to the bandit named `bandit_key`.
#[derive(Debug, Clone, PartialEq)]
pub struct BanditAssociation {
    pub flag_key: String,
    pub variation_value: String,
    pub bandit_key: String,
}

/// A point-in-time immutable snapshot of flags and bandits.
#[derive(Debug, Clone, PartialEq)]
pub struct Configuration {
    pub flags: UniversalFlagConfig,
    pub bandits: Vec<BanditEntry>,
    pub flag_to_bandit_associations: Vec<BanditAssociation>,
    /// When the SDK received this snapshot.
    pub fetched_at: Timestamp,
}

/// The bandit key associated with assigning `variation_value` under
/// `flag_key`: the first matching association.
pub open spec fn associations_get(
    entries: Seq<BanditAssociation>,
    flag_key: Seq<char>,
    variation_value: Seq<char>,
) -> Option<Seq<char>>
    decreases entries.len(),
{
    if entries.len() == 0 {
        None
    } else if entries[0].flag_key@ == flag_key && entries[0].variation_value@
        == variation_value {
        Some(entries[0].bandit_key@)
    } else {
        associations_get(entries.drop_first(), flag_key, variation_value)
    }
}

proof fn lemma_associations_get_skip(
    entries: Seq<BanditAssociation>,
    flag_key: Seq<char>,
    variation_value: Seq<char>,
    i: int,
)
    requires
        0 <= i <= entries.len(),
        forall|k: int|
            0 <= k < i ==> !(entries[k].flag_key@ == flag_key && entries[k].variation_value@
                == variation_value),
    ensures
        associations_get(entries, flag_key, variation_value) == associations_get(
            entries.skip(i),
            flag_key,
            variation_value,
        ),
    decreases i,
{
    if i > 0 {
        assert(entries.skip(1).skip(i - 1) == entries.skip(i));
        assert(forall|k: int| 0 <= k < i - 1 ==> #[trigger] entries.skip(1)[k] == entries[k + 1]);
        lemma_associations_get_skip(entries.skip(1), flag_key, variation_value, i - 1);
        assert(entries.drop_first() == entries.skip(1));
    } else {
        assert(entries.skip(0) == entries);
    }
}

/// The bandit model stored under `key`: the first entry with that key.
pub open spec fn bandits_get(entries: Seq<BanditEntry>, key: Seq<char>) -> Option<BanditModel>
    decreases entries.len(),
{
    if entries.len() == 0 {
        None
    } else if entries[0].key@ == key {
        Some(entries[0].model)
    } else {
        bandits_get(entries.drop_first(), key)
    }
}

proof fn lemma_bandits_get_skip(entries: Seq<BanditEntry>, key: Seq<char>, i: int)
    requires
        0 <= i <= entries.len(),
        forall|k: int| 0 <= k < i ==> entries[k].key@ != key,
    ensures
        bandits_get(entries, key) == bandits_get(entries.skip(i), key),
    decreases i,
{
    if i > 0 {
        assert(entries.skip(1).skip(i - 1) == entries.skip(i));
        assert(forall|k: int|
            0 <= k < i - 1 ==> #[trigger] entries.skip(1)[k].key@ == entries[k + 1].key@);
        lemma_bandits_get_skip(entries.skip(1), key, i - 1);
        assert(entries.drop_first() == entries.skip(1));
    } else {
        assert(entries.skip(0) == entries);
    }
}

impl Configuration {
    /// Every flag that parsed has a positive shard count, so that shard
    /// indices are well defined.
    pub open spec fn well_formed(&self) -> bool {
        forall|i: int|
            0 <= i < self.flags.flags@.len() ==> ((#[trigger] self.flags.flags@[i].flag) matches
                TryParse::Parsed(f) ==> f.total_shards > 0)
    }

    /// Assembles a snapshot from decoded server responses.
    pub fn from_server_response(
        flags: UniversalFlagConfig,
        bandits: Vec<BanditEntry>,
        flag_to_bandit_associations: Vec<BanditAssociation>,
        fetched_at: Timestamp,
    ) -> (r: Configuration)
        ensures
            r.flags == flags,
            r.bandits == bandits,
            r.flag_to_bandit_associations == flag_to_bandit_associations,
            r.fetched_at == fetched_at,
    {
        Configuration { flags, bandits, flag_to_bandit_associations, fetched_at }
    }

    /// The bandit key tied to assigning `variation_value` under
    /// `flag_key`, if that variation is a bandit variation.
    pub open spec fn spec_get_bandit_key(
        &self,
        flag_key: Seq<char>,
        variation_value: Seq<char>,
    ) -> Option<Seq<char>> {
        associations_get(self.flag_to_bandit_associations@, flag_key, variation_value)
    }

    /// Looks the bandit key for `(flag_key, variation_value)` up.
    pub fn get_bandit_key(&self, flag_key: &str, variation_value: &str) -> (r: Option<&String>)
        ensures
            match r {
                Some(s) => self.spec_get_bandit_key(flag_key@, variation_value@) == Some(s@),
                None => self.spec_get_bandit_key(flag_key@, variation_value@) is None,
            },
    {
        let n = self.flag_to_bandit_associations.len();
        let mut i: usize = 0;
        while i < n
            invariant
                0 <= i <= n == self.flag_to_bandit_associations@.len(),
                forall|k: int|
                    0 <= k < i ==> !((#[trigger] self.flag_to_bandit_associations@[k]).flag_key@
                        == flag_key@ && self.flag_to_bandit_associations@[k].variation_value@
                        == variation_value@),
            decreases n - i,
        {
            let a = &self.flag_to_bandit_associations[i];
            if str_eq(a.flag_key.as_str(), flag_key) && str_eq(
                a.variation_value.as_str(),
                variation_value,
            ) {
                proof {
                    lemma_associations_get_skip(
                        self.flag_to_bandit_associations@,
                        flag_key@,
                        variation_value@,
                        i as int,
                    );
                    assert(self.flag_to_bandit_associations@.skip(i as int)[0]
                        == self.flag_to_bandit_associations@[i as int]);
                }
                return Some(&self.flag_to_bandit_associations[i].bandit_key);
            }
            i = i + 1;
        }
        proof {
            lemma_associations_get_skip(
                self.flag_to_bandit_associations@,
                flag_key@,
                variation_value@,
                n as int,
            );
        }
        None
    }

    /// The bandit model stored under `bandit_key`, if any.
    pub open spec fn spec_get_bandit(&self, bandit_key: Seq<char>) -> Option<BanditModel> {
        bandits_get(self.bandits@, bandit_key)
    }

    /// Looks the bandit model named `bandit_key` up.
    pub fn get_bandit(&self, bandit_key: &str) -> (r: Option<&BanditModel>)
        ensures
            match r {
                Some(m) => self.spec_get_bandit(bandit_key@) == Some(*m),
                None => self.spec_get_bandit(bandit_key@) is None,
            },
    {
        let n = self.bandits.len();
        let mut i: usize = 0;
        while i < n
            invariant
                0 <= i <= n == self.bandits@.len(),
                forall|k: int| 0 <= k < i ==> self.bandits@[k].key@ != bandit_key@,
            decreases n - i,
        {
            if str_eq(self.bandits[i].key.as_str(), bandit_key) {
                proof {
                    lemma_bandits_get_skip(self.bandits@, bandit_key@, i as int);
                    assert(self.bandits@.skip(i as int)[0] == self.bandits@[i as int]);
                }
                return Some(&self.bandits[i].model);
            }
            i = i + 1;
        }
        proof {
            lemma_bandits_get_skip(self.bandits@, bandit_key@, n as int);
        }
        None
    }
}

} // verus!
