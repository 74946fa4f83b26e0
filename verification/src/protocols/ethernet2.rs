//! Ethernet II framing: six octets of destination, six of source, two of
//! EtherType, then the payload.
pub mod frame;
pub mod header;
pub mod mac_address;

pub use frame::{Frame, FrameMut, MIN_PAYLOAD_SIZE};
pub use header::{EtherType, Header, HeaderMut, HEADER_SIZE};
pub use mac_address::MacAddress;
