//! IPv4 datagrams without options and without fragmentation.
pub mod address;
pub mod header;
pub mod packet;
pub mod protocol;

pub use address::Ipv4Addr;
pub use header::{
    Ipv4Header, Ipv4HeaderMut, DEFAULT_IPV4_TTL, IPV4_HEADER_SIZE, IPV4_IHL_NO_OPTIONS,
    IPV4_VERSION,
};
pub use packet::{Ipv4Packet, Ipv4PacketMut};
pub use protocol::Ipv4Protocol;
