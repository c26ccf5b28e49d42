//! The configuration fetcher's decision logic.
//!
//! The fetcher drives the two configuration requests: flags first, then —
//! only when the flags reference bandits — the bandit models. The HTTP
//! transfers themselves are performed by the embedding application; this
//! module decides when to fetch, classifies response statuses, and holds
//! the sticky `unauthorized` latch: after one `401` every later fetch is
//! refused without a request.

use vstd::prelude::*;

verus! {

/// Identification of the embedding SDK, sent with every request.
#[derive(Debug, Clone, PartialEq)]
pub struct SdkMetadata {
    pub name: String,
    pub version: String,
}

/// What the fetcher needs to know to build its requests.
#[derive(Debug, Clone, PartialEq)]
pub struct ConfigurationFetcherConfig {
    pub base_url: String,
    pub api_key: String,
    pub sdk_metadata: SdkMetadata,
}

/// Path of the flag-configuration endpoint under the base URL.
pub const UFC_ENDPOINT: &'static str = "/flag-config/v1/config";

/// Path of the bandit-model endpoint under the base URL.
pub const BANDIT_ENDPOINT: &'static str = "/flag-config/v1/bandits";

/// How a fetch attempt is acted on.
#[derive(Debug, Clone, Copy, PartialEq, Eq, Structural)]
pub enum FetchClass {
    /// A 2xx response: decode and publish.
    Success,
    /// A 401: the key is bad; never fetch again.
    Unauthorized,
    /// Another 4xx: surface once, do not retry.
    NonRetriable,
    /// A 5xx or transport failure: try again next poll.
    Retriable,
    /// The configured base URL cannot be used to build a request; surfaced
    /// to the caller, distinct from any server response.
    InvalidBaseUrl,
}

/// The class a response status falls in.
pub open spec fn fetch_class_of(status: u16) -> FetchClass {
    if 200 <= status < 300 {
        FetchClass::Success
    } else if status == 401 {
        FetchClass::Unauthorized
    } else if 400 <= status < 500 {
        FetchClass::NonRetriable
    } else {
        FetchClass::Retriable
    }
}

/// The fetcher: its request parameters and the sticky unauthorized latch.
#[derive(Debug, Clone, PartialEq)]
pub struct ConfigurationFetcher {
    pub config: ConfigurationFetcherConfig,
    /// Set once a 401 is seen; never reset.
    pub unauthorized: bool,
}

impl ConfigurationFetcher {
    /// A fetcher that has seen no authorization failure yet.
    pub fn new(config: ConfigurationFetcherConfig) -> (r: ConfigurationFetcher)
        ensures
            r.config == config,
            r.unauthorized == false,
    {
        ConfigurationFetcher { config, unauthorized: false }
    }

    /// Whether a fetch may be attempted: refused for good once the latch
    /// is set.
    pub fn begin_fetch(&self) -> (r: Result<(), FetchClass>)
        ensures
            self.unauthorized ==> r == Err::<(), FetchClass>(FetchClass::Unauthorized),
            !self.unauthorized ==> r == Ok::<(), FetchClass>(()),
    {
        if self.unauthorized {
            Err(FetchClass::Unauthorized)
        } else {
            Ok(())
        }
    }

    /// Classifies a response status. A `401` sets the latch; nothing ever
    /// clears it.
    pub fn on_response_status(&mut self, status: u16) -> (r: FetchClass)
        ensures
            r == fetch_class_of(status),
            final(self).unauthorized == (old(self).unauthorized || status == 401),
            final(self).config == old(self).config,
            old(self).unauthorized ==> final(self).unauthorized,
    {
        if 200 <= status && status < 300 {
            FetchClass::Success
        } else if status == 401 {
            self.unauthorized = true;
            FetchClass::Unauthorized
        } else if 400 <= status && status < 500 {
            FetchClass::NonRetriable
        } else {
            FetchClass::Retriable
        }
    }

    /// The configured base URL cannot be turned into a request URL. This
    /// is a configuration mistake surfaced to the caller as its own
    /// outcome; it is not an authorization failure, so the latch stays
    /// untouched.
    pub fn on_invalid_base_url(&self) -> (r: FetchClass)
        ensures
            r == FetchClass::InvalidBaseUrl,
            r != FetchClass::Unauthorized,
    {
        FetchClass::InvalidBaseUrl
    }

    /// After the flag configuration decodes, the bandit models are
    /// fetched exactly when some flag references a bandit.
    pub fn needs_bandit_fetch(&self, bandit_association_count: usize) -> (r: bool)
        ensures
            r == (bandit_association_count > 0),
    {
        bandit_association_count > 0
    }
}

} // verus!
