//! The freshness-token cache state.
//!
//! A background task refreshes the short-lived token every fixed interval;
//! every probe embeds the cached value. The locking and the refresh loop
//! live outside the library; this type holds the cached state and makes
//! the startup rule checkable: no consumer may proceed before the first
//! successful refresh.

use vstd::prelude::*;

verus! {

/// The cached freshness token, absent until the first successful refresh.
pub struct ReferenceCache {
    token: Option<solana_sdk::hash::Hash>,
}

impl ReferenceCache {
    /// The cached token, if any.
    pub closed spec fn spec_token(&self) -> Option<solana_sdk::hash::Hash> {
        self.token
    }

    /// Whether the first refresh has happened.
    pub open spec fn is_ready(&self) -> bool {
        self.spec_token() is Some
    }

    /// An empty cache: consumers must not draw a token from it yet.
    pub fn new() -> (r: Self)
        ensures
            !r.is_ready(),
    {
        ReferenceCache { token: None }
    }

    /// Replace the cached token with a freshly fetched one.
    pub fn refresh(&mut self, token: solana_sdk::hash::Hash)
        ensures
            final(self).is_ready(),
            final(self).spec_token() == Some(token),
    {
        self.token = Some(token);
    }

    /// Whether a token is available.
    pub fn ready(&self) -> (r: bool)
        ensures
            r == self.is_ready(),
    {
        self.token.is_some()
    }

    /// The cached token: exactly the last refreshed value, or nothing
    /// before the first refresh.
    pub fn current(&self) -> (r: Option<solana_sdk::hash::Hash>)
        ensures
            r == self.spec_token(),
    {
        self.token
    }
}

} // verus!
