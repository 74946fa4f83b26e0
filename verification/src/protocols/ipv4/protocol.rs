use crate::fail::Fail;
use vstd::prelude::*;

verus! {

/// The transport protocols that an IPv4 datagram may name.
#[derive(Clone, Copy, Debug, PartialEq, Eq, Hash, Structural)]
pub enum Ipv4Protocol {
    Icmpv4,
    Tcp,
    Udp,
}

impl Ipv4Protocol {
    /// The number that stands for the protocol in the header.
    pub open spec fn code(self) -> int {
        match self {
            Ipv4Protocol::Icmpv4 => 1,
            Ipv4Protocol::Tcp => 6,
            Ipv4Protocol::Udp => 17,
        }
    }

    /// The protocol that a header number stands for, if it is a known one.
    pub open spec fn from_code(code: u8) -> Option<Ipv4Protocol> {
        if code == 1 {
            Some(Ipv4Protocol::Icmpv4)
        } else if code == 6 {
            Some(Ipv4Protocol::Tcp)
        } else if code == 17 {
            Some(Ipv4Protocol::Udp)
        } else {
            None
        }
    }

    pub fn to_u8(self) -> (r: u8)
        ensures
            r == self.code(),
    {
        match self {
            Ipv4Protocol::Icmpv4 => 1,
            Ipv4Protocol::Tcp => 6,
            Ipv4Protocol::Udp => 17,
        }
    }

    /// Reads a header number. An unknown number is `Unsupported`.
    pub fn try_from_u8(n: u8) -> (r: Result<Ipv4Protocol, Fail>)
        ensures
            r == match Ipv4Protocol::from_code(n) {
                Some(p) => Ok::<Ipv4Protocol, Fail>(p),
                None => Err(Fail::Unsupported),
            },
    {
        if n == 1 {
            Ok(Ipv4Protocol::Icmpv4)
        } else if n == 6 {
            Ok(Ipv4Protocol::Tcp)
        } else if n == 17 {
            Ok(Ipv4Protocol::Udp)
        } else {
            Err(Fail::Unsupported)
        }
    }

    /// The number of a protocol stands for that protocol, and fits in one
    /// octet.
    pub proof fn law_code_roundtrip(self)
        ensures
            0 < self.code() < 256,
            forall|n: u8| n == self.code() ==> Ipv4Protocol::from_code(n) == Some(self),
    {
    }
}

} // verus!
