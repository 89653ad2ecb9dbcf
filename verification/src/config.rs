//! Run configuration: endpoints, key material location, fee priority and
//! the run-duration bound. Loading and validating the process environment
//! happens outside the library; the library only works with the loaded
//! values.

use vstd::prelude::*;

verus! {

/// Configuration for one benchmark run.
pub struct Config {
    /// Websocket endpoint for the slot-update subscription.
    pub ws_rpc: String,
    /// HTTP endpoint used for token refresh and status queries.
    pub http_rpc: String,
    /// Path to the signing key material.
    pub keypair_path: String,
    /// Endpoint the probe transactions are submitted through.
    pub paladin_rpc: String,
    /// Wall-clock bound on the dispatch phase, in minutes.
    pub duration_mins: u64,
    /// Fee-priority parameter attached to every probe transaction.
    pub cu_price_micro_lamports: u64,
}

impl Config {
    /// The dispatch-phase bound in seconds, or `None` when the configured
    /// number of minutes does not fit the second counter.
    pub fn run_duration_secs(&self) -> (r: Option<u64>)
        ensures
            r is Some <==> self.duration_mins * 60 <= u64::MAX,
            r is Some ==> r->0 == self.duration_mins * 60,
    {
        self.duration_mins.checked_mul(60)
    }
}

} // verus!
