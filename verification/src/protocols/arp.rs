//! The Address Resolution Protocol for IPv4 over Ethernet II: the packet,
//! the cache of what was learned, and the resolver.
pub mod cache;
pub mod pdu;
pub mod peer;
pub mod query;

pub use cache::{ArpCache, ArpSnapshot, CacheEntry};
pub use pdu::{ArpOp, ArpPdu};
pub use peer::{ArpFuture, ArpPeer};
pub use query::Query;
