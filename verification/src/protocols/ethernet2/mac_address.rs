use vstd::prelude::*;

verus! {

/// A link-layer address: six octets, compared octet by octet.
#[derive(Clone, Copy, Debug, PartialEq, Eq, Hash, Structural)]
pub struct MacAddress {
    pub b0: u8,
    pub b1: u8,
    pub b2: u8,
    pub b3: u8,
    pub b4: u8,
    pub b5: u8,
}

impl MacAddress {
    /// The six octets in transmission order.
    pub open spec fn view(&self) -> Seq<u8> {
        seq![self.b0, self.b1, self.b2, self.b3, self.b4, self.b5]
    }

    /// The address whose octets are the first six of `s`.
    pub open spec fn from_seq(s: Seq<u8>) -> MacAddress {
        MacAddress { b0: s[0], b1: s[1], b2: s[2], b3: s[3], b4: s[4], b5: s[5] }
    }

    pub open spec fn spec_broadcast() -> MacAddress {
        MacAddress { b0: 0xff, b1: 0xff, b2: 0xff, b3: 0xff, b4: 0xff, b5: 0xff }
    }

    pub open spec fn spec_nil() -> MacAddress {
        MacAddress { b0: 0, b1: 0, b2: 0, b3: 0, b4: 0, b5: 0 }
    }

    pub fn new(octets: [u8; 6]) -> (r: MacAddress)
        ensures
            r@ == octets@,
            r == MacAddress::from_seq(octets@),
    {
        let r = MacAddress {
            b0: octets[0],
            b1: octets[1],
            b2: octets[2],
            b3: octets[3],
            b4: octets[4],
            b5: octets[5],
        };
        assert(r@ =~= octets@);
        r
    }

    /// Reads an address from a slice of exactly six octets.
    pub fn from_bytes(bytes: &[u8]) -> (r: MacAddress)
        requires
            bytes@.len() == 6,
        ensures
            r@ == bytes@,
            r == MacAddress::from_seq(bytes@),
    {
        let r = MacAddress {
            b0: bytes[0],
            b1: bytes[1],
            b2: bytes[2],
            b3: bytes[3],
            b4: bytes[4],
            b5: bytes[5],
        };
        assert(r@ =~= bytes@);
        r
    }

    pub fn to_array(&self) -> (r: [u8; 6])
        ensures
            r@ == self@,
    {
        let r = [self.b0, self.b1, self.b2, self.b3, self.b4, self.b5];
        assert(r@ =~= self@);
        r
    }

    /// The address that every station on the link accepts.
    #[verifier::when_used_as_spec(spec_broadcast)]
    pub fn broadcast() -> (r: MacAddress)
        ensures
            r == MacAddress::spec_broadcast(),
    {
        MacAddress { b0: 0xff, b1: 0xff, b2: 0xff, b3: 0xff, b4: 0xff, b5: 0xff }
    }

    /// The all-zero address, which stands for "not known".
    #[verifier::when_used_as_spec(spec_nil)]
    pub fn nil() -> (r: MacAddress)
        ensures
            r == MacAddress::spec_nil(),
    {
        MacAddress { b0: 0, b1: 0, b2: 0, b3: 0, b4: 0, b5: 0 }
    }

    pub fn is_broadcast(&self) -> (r: bool)
        ensures
            r == (*self == MacAddress::spec_broadcast()),
    {
        self.b0 == 0xff && self.b1 == 0xff && self.b2 == 0xff && self.b3 == 0xff && self.b4
            == 0xff && self.b5 == 0xff
    }

    pub fn is_nil(&self) -> (r: bool)
        ensures
            r == (*self == MacAddress::spec_nil()),
    {
        self.b0 == 0 && self.b1 == 0 && self.b2 == 0 && self.b3 == 0 && self.b4 == 0 && self.b5
            == 0
    }

    /// An address is determined by its octets.
    pub proof fn law_view_roundtrip(self)
        ensures
            self@.len() == 6,
            MacAddress::from_seq(self@) == self,
    {
    }

    /// Any six octets are the view of the address read from them.
    pub proof fn law_from_seq_view(s: Seq<u8>)
        requires
            s.len() == 6,
        ensures
            MacAddress::from_seq(s)@ == s,
    {
        assert(MacAddress::from_seq(s)@ =~= s);
    }
}

} // verus!
