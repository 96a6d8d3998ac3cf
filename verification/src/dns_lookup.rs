//! One measured DNS lookup.

use vstd::prelude::*;

verus! {

/// Result of one DNS lookup, including the adapter's measured duration.
#[derive(Clone, Copy, Debug, Eq, PartialEq)]
pub struct DnsLookupResult {
    /// Whether the lookup returned at least one address.
    pub succeeded: bool,
    /// Measured lookup duration in milliseconds.
    pub latency_millis: u64,
}

/// Adapter for an async DNS lookup function.
pub struct DnsLookupFn<F>(pub F);

} // verus!
