//! The configuration store.
//!
//! Holds at most one configuration snapshot. Reads hand out the whole
//! current snapshot; a write replaces it wholesale, so a reader sees
//! either the previous or the new snapshot, never a mixture. The embedding
//! application serializes writers and shares the store between threads.

use vstd::prelude::*;

use crate::configuration::Configuration;
use crate::ufc::Timestamp;

verus! {

/// Holder of the current configuration snapshot.
#[derive(Debug, Clone, PartialEq)]
pub struct ConfigurationStore {
    pub configuration: Option<Configuration>,
}

impl ConfigurationStore {
    /// An empty store: no snapshot yet.
    pub fn new() -> (r: ConfigurationStore)
        ensures
            r.configuration is None,
    {
        ConfigurationStore { configuration: None }
    }

    /// The current snapshot, if one has been published.
    pub fn get(&self) -> (r: Option<&Configuration>)
        ensures
            match r {
                Some(c) => self.configuration == Some(*c),
                None => self.configuration is None,
            },
    {
        self.configuration.as_ref()
    }

    /// Replaces the snapshot wholesale.
    pub fn set(&mut self, configuration: Configuration)
        ensures
            final(self).configuration == Some(configuration),
    {
        self.configuration = Some(configuration);
    }

    /// How old the current snapshot is at time `now`, if one is held.
    pub fn get_configuration_age(&self, now: Timestamp) -> (r: Option<i64>)
        requires
            self.configuration matches Some(c) ==> i64::MIN <= now - c.fetched_at <= i64::MAX,
        ensures
            match self.configuration {
                Some(c) => r == Some((now - c.fetched_at) as i64),
                None => r is None,
            },
    {
        match &self.configuration {
            Some(c) => Some(now - c.fetched_at),
            None => None,
        }
    }
}

} // verus!
