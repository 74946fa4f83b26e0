//! What the host configures.
use crate::protocols::ethernet2::MacAddress;
use crate::protocols::ipv4::Ipv4Addr;
use crate::time::{Duration, NANOS_PER_SEC};
use vstd::prelude::*;

verus! {

/// The time between an ARP request and the next attempt, unless the host
/// says otherwise: one second.
pub const DEFAULT_REQUEST_TIMEOUT_NANOS: u64 = NANOS_PER_SEC;

/// The number of attempts after the first, unless the host says otherwise.
pub const DEFAULT_RETRY_COUNT: u64 = 2;

/// The life of a learned ARP entry, unless the host says otherwise: ten
/// minutes.
pub const DEFAULT_CACHE_TTL_NANOS: u64 = 600 * NANOS_PER_SEC;

/// The options of the ARP resolver. What is `None` takes its default.
#[derive(Clone, Copy, Debug)]
pub struct ArpOptions {
    pub cache_ttl: Option<Duration>,
    pub request_timeout: Option<Duration>,
    pub retry_count: Option<u64>,
}

impl ArpOptions {
    pub open spec fn spec_effective_cache_ttl(&self) -> Duration {
        match self.cache_ttl {
            Some(ttl) => ttl,
            None => Duration { nanos: DEFAULT_CACHE_TTL_NANOS },
        }
    }

    pub open spec fn spec_effective_request_timeout(&self) -> Duration {
        match self.request_timeout {
            Some(timeout) => timeout,
            None => Duration { nanos: DEFAULT_REQUEST_TIMEOUT_NANOS },
        }
    }

    pub open spec fn spec_effective_retry_count(&self) -> u64 {
        match self.retry_count {
            Some(count) => count,
            None => DEFAULT_RETRY_COUNT,
        }
    }

    /// The life of a learned entry.
    #[verifier::when_used_as_spec(spec_effective_cache_ttl)]
    pub fn effective_cache_ttl(&self) -> (r: Duration)
        ensures
            r == self.spec_effective_cache_ttl(),
    {
        match self.cache_ttl {
            Some(ttl) => ttl,
            None => Duration { nanos: DEFAULT_CACHE_TTL_NANOS },
        }
    }

    /// The time between a request and the next attempt.
    #[verifier::when_used_as_spec(spec_effective_request_timeout)]
    pub fn effective_request_timeout(&self) -> (r: Duration)
        ensures
            r == self.spec_effective_request_timeout(),
    {
        match self.request_timeout {
            Some(timeout) => timeout,
            None => Duration { nanos: DEFAULT_REQUEST_TIMEOUT_NANOS },
        }
    }

    /// The number of attempts after the first.
    #[verifier::when_used_as_spec(spec_effective_retry_count)]
    pub fn effective_retry_count(&self) -> (r: u64)
        ensures
            r == self.spec_effective_retry_count(),
    {
        match self.retry_count {
            Some(count) => count,
            None => DEFAULT_RETRY_COUNT,
        }
    }
}

impl Default for ArpOptions {
    fn default() -> (r: ArpOptions)
        ensures
            r.cache_ttl is None,
            r.request_timeout is None,
            r.retry_count is None,
    {
        ArpOptions { cache_ttl: None, request_timeout: None, retry_count: None }
    }
}

/// The options of an engine: those of its resolver and the two addresses
/// of the node, which have no default.
#[derive(Clone, Copy, Debug)]
pub struct Options {
    pub arp: ArpOptions,
    pub my_ipv4_addr: Ipv4Addr,
    pub my_link_addr: MacAddress,
}

impl Options {
    /// Options with the given addresses and every default.
    pub fn new(my_link_addr: MacAddress, my_ipv4_addr: Ipv4Addr) -> (r: Options)
        ensures
            r.my_link_addr == my_link_addr,
            r.my_ipv4_addr == my_ipv4_addr,
            r.arp.cache_ttl is None,
            r.arp.request_timeout is None,
            r.arp.retry_count is None,
    {
        Options {
            arp: ArpOptions { cache_ttl: None, request_timeout: None, retry_count: None },
            my_ipv4_addr,
            my_link_addr,
        }
    }
}

} // verus!
