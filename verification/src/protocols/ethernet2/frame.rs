use super::header::{ether_type_of, Header, HeaderMut, HEADER_SIZE};
use crate::fail::Fail;
use vstd::prelude::*;

verus! {

/// The smallest payload that an Ethernet II frame carries. A sender pads
/// what is shorter.
pub const MIN_PAYLOAD_SIZE: usize = 46;

/// The octets of a frame that follow its header.
pub open spec fn payload_of(frame: Seq<u8>) -> Seq<u8> {
    frame.subrange(HEADER_SIZE as int, frame.len() as int)
}

/// The octets of the header of a frame.
pub open spec fn header_of(frame: Seq<u8>) -> Seq<u8> {
    frame.subrange(0, HEADER_SIZE as int)
}

/// What `Frame::attach` answers for the octets `s`: `None` where it accepts
/// them.
pub open spec fn attach_failure(s: Seq<u8>) -> Option<Fail> {
    if s.len() < HEADER_SIZE {
        Some(Fail::Malformed)
    } else if ether_type_of(s) is None {
        Some(Fail::Unsupported)
    } else {
        None
    }
}

/// A read-only view of an Ethernet II frame in a buffer of the caller.
pub struct Frame<'a> {
    bytes: &'a [u8],
}

impl<'a> Frame<'a> {
    /// All octets of the frame, header first.
    pub closed spec fn view(&self) -> Seq<u8> {
        self.bytes@
    }

    /// A frame holds at least a whole header.
    pub open spec fn wf(&self) -> bool {
        self@.len() >= HEADER_SIZE
    }

    /// Views received octets as a frame. Fewer octets than a header are
    /// `Malformed`; an EtherType outside the known set is `Unsupported`.
    pub fn attach(bytes: &'a [u8]) -> (r: Result<Frame<'a>, Fail>)
        ensures
            match r {
                Ok(frame) => attach_failure(bytes@) is None && frame@ == bytes@ && frame.wf(),
                Err(e) => attach_failure(bytes@) == Some(e),
            },
    {
        if bytes.len() < HEADER_SIZE {
            return Err(Fail::Malformed);
        }
        let frame = Frame { bytes };
        match frame.header().ether_type() {
            Ok(_) => Ok(frame),
            Err(e) => Err(e),
        }
    }

    pub fn as_bytes(&self) -> (r: &'a [u8])
        ensures
            r@ == self@,
    {
        self.bytes
    }

    pub fn header(&self) -> (r: Header<'a>)
        requires
            self.wf(),
        ensures
            r@ == header_of(self@),
            r.wf(),
    {
        Header::new(vstd::slice::slice_subrange(self.bytes, 0, HEADER_SIZE))
    }

    /// The octets after the header. Nothing is copied.
    pub fn payload(&self) -> (r: &'a [u8])
        requires
            self.wf(),
        ensures
            r@ == payload_of(self@),
    {
        vstd::slice::slice_subrange(self.bytes, HEADER_SIZE, self.bytes.len())
    }
}

/// A view of an Ethernet II frame under construction in a buffer of the
/// caller. `bytes` is the borrowed buffer itself: what the view writes is
/// written there.
pub struct FrameMut<'a> {
    pub bytes: &'a mut [u8],
}

impl<'a> FrameMut<'a> {
    /// A frame under construction has room for a header and the smallest
    /// payload.
    pub open spec fn wf(&self) -> bool {
        self.bytes@.len() >= HEADER_SIZE + MIN_PAYLOAD_SIZE
    }

    /// Views a buffer as a frame to fill in. A buffer without room for a
    /// header and the smallest payload is `Malformed`.
    pub fn from_bytes(bytes: &'a mut [u8]) -> (r: Result<FrameMut<'a>, Fail>)
        ensures
            match r {
                Ok(frame) => {
                    &&& old(bytes)@.len() >= HEADER_SIZE + MIN_PAYLOAD_SIZE
                    &&& frame.bytes@ == old(bytes)@
                    &&& final(frame.bytes)@ == final(bytes)@
                    &&& frame.wf()
                },
                Err(e) => {
                    &&& old(bytes)@.len() < HEADER_SIZE + MIN_PAYLOAD_SIZE
                    &&& e == Fail::Malformed
                    &&& final(bytes)@ == old(bytes)@
                },
            },
    {
        if bytes.len() < HEADER_SIZE + MIN_PAYLOAD_SIZE {
            return Err(Fail::Malformed);
        }
        Ok(FrameMut { bytes })
    }

    /// The header, to write its fields. What is written shows in the frame
    /// when the returned view is given up.
    pub fn header(&mut self) -> (r: HeaderMut<'_>)
        requires
            old(self).wf(),
        ensures
            r.bytes@ == header_of(old(self).bytes@),
            r.wf(),
            final(self).bytes@ == final(r.bytes)@ + payload_of(old(self).bytes@),
            final(final(self).bytes)@ == final(old(self).bytes)@,
    {
        let (head, _) = self.bytes.split_at_mut(HEADER_SIZE);
        HeaderMut::new(head)
    }

    /// The octets after the header, to write them.
    pub fn payload(&mut self) -> (r: &mut [u8])
        requires
            old(self).wf(),
        ensures
            r@ == payload_of(old(self).bytes@),
            final(self).bytes@ == header_of(old(self).bytes@) + final(r)@,
            final(final(self).bytes)@ == final(old(self).bytes)@,
    {
        let (_, rest) = self.bytes.split_at_mut(HEADER_SIZE);
        rest
    }

    /// Gives up the right to write and keeps the view.
    pub fn unmut(self) -> (r: Frame<'a>)
        requires
            self.wf(),
        ensures
            r@ == old(self.bytes)@,
            final(self.bytes)@ == old(self.bytes)@,
            r.wf(),
    {
        Frame { bytes: self.bytes }
    }
}

} // verus!
