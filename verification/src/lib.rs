//! The core of a userspace TCP/IP engine: bit-exact wire views for
//! Ethernet II, IPv4 and ARP, an ARP cache with expiring entries, and a
//! poll-driven ARP resolver with retries and timeouts.
//!
//! The engine performs no I/O and never reads a clock: the host hands it
//! frames with `Engine::receive`, drains outbound frames with `Engine::poll`
//! and passes the present instant to every call that needs one.
pub mod deferred;
pub mod engine;
pub mod event;
pub mod fail;
pub mod options;
pub mod protocols;
pub mod time;

pub use deferred::DeferredResult;
pub use engine::Engine;
pub use event::{Event, EventQueue};
pub use fail::Fail;
pub use options::{ArpOptions, Options};
pub use time::{Duration, Timestamp};
