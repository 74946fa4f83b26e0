use vstd::prelude::*;

verus! {

/// An IPv4 address: four octets.
#[derive(Clone, Copy, Debug, PartialEq, Eq, Hash, Structural)]
pub struct Ipv4Addr {
    pub o0: u8,
    pub o1: u8,
    pub o2: u8,
    pub o3: u8,
}

impl Ipv4Addr {
    /// The four octets in transmission order.
    pub open spec fn view(&self) -> Seq<u8> {
        seq![self.o0, self.o1, self.o2, self.o3]
    }

    /// The address whose octets are the first four of `s`.
    pub open spec fn from_seq(s: Seq<u8>) -> Ipv4Addr {
        Ipv4Addr { o0: s[0], o1: s[1], o2: s[2], o3: s[3] }
    }

    pub fn new(a: u8, b: u8, c: u8, d: u8) -> (r: Ipv4Addr)
        ensures
            r == (Ipv4Addr { o0: a, o1: b, o2: c, o3: d }),
    {
        Ipv4Addr { o0: a, o1: b, o2: c, o3: d }
    }

    pub fn octets(&self) -> (r: [u8; 4])
        ensures
            r@ == self@,
    {
        let r = [self.o0, self.o1, self.o2, self.o3];
        assert(r@ =~= self@);
        r
    }

    /// An address is determined by its octets.
    pub proof fn law_view_roundtrip(self)
        ensures
            self@.len() == 4,
            Ipv4Addr::from_seq(self@) == self,
    {
    }

    /// Any four octets are the view of the address read from them.
    pub proof fn law_from_seq_view(s: Seq<u8>)
        requires
            s.len() == 4,
        ensures
            Ipv4Addr::from_seq(s)@ == s,
    {
        assert(Ipv4Addr::from_seq(s)@ =~= s);
    }
}

/// Reads the four octets of an address.
pub fn read_ipv4(bytes: &[u8], at: usize) -> (r: Ipv4Addr)
    requires
        at + 4 <= bytes@.len(),
    ensures
        r == Ipv4Addr::from_seq(bytes@.subrange(at as int, at + 4)),
{
    Ipv4Addr { o0: bytes[at], o1: bytes[at + 1], o2: bytes[at + 2], o3: bytes[at + 3] }
}

/// Writes the four octets of an address.
pub fn write_ipv4(bytes: &mut [u8], at: usize, addr: Ipv4Addr)
    requires
        at + 4 <= old(bytes)@.len(),
    ensures
        final(bytes)@ == crate::protocols::ethernet2::header::splice(
            old(bytes)@,
            at as int,
            addr@,
        ),
{
    bytes[at] = addr.o0;
    bytes[at + 1] = addr.o1;
    bytes[at + 2] = addr.o2;
    bytes[at + 3] = addr.o3;
    assert(bytes@ =~= crate::protocols::ethernet2::header::splice(
        old(bytes)@,
        at as int,
        addr@,
    ));
}

} // verus!
