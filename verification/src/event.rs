//! What the engine asks of its host, in the order in which it asked.
use std::collections::VecDeque;
use vstd::prelude::*;

verus! {

/// An effect that the engine leaves for the host to carry out.
#[derive(Debug)]
#[non_exhaustive]
pub enum Event {
    /// Put these octets, a whole Ethernet II frame, on the wire.
    Transmit(Vec<u8>),
}

/// What an event says, as plain values.
pub enum EventView {
    Transmit(Seq<u8>),
}

impl View for Event {
    type V = EventView;

    open spec fn view(&self) -> EventView {
        match *self {
            Event::Transmit(bytes) => EventView::Transmit(bytes@),
        }
    }
}

/// The events that wait for the host, first in, first out.
pub struct EventQueue {
    items: VecDeque<Event>,
}

impl View for EventQueue {
    type V = Seq<EventView>;

    /// The waiting events, oldest first.
    closed spec fn view(&self) -> Seq<EventView> {
        Seq::new(self.items@.len(), |i: int| self.items@[i]@)
    }
}

impl EventQueue {
    pub fn new() -> (r: EventQueue)
        ensures
            r@ == Seq::<EventView>::empty(),
    {
        let r = EventQueue { items: VecDeque::new() };
        assert(r@ =~= Seq::<EventView>::empty());
        r
    }

    pub fn len(&self) -> (r: usize)
        ensures
            r == self@.len(),
    {
        self.items.len()
    }

    pub fn is_empty(&self) -> (r: bool)
        ensures
            r == (self@.len() == 0),
    {
        self.items.len() == 0
    }

    /// Adds an event behind those that wait.
    pub fn push(&mut self, event: Event)
        ensures
            final(self)@ == old(self)@.push(event@),
    {
        self.items.push_back(event);
        assert(self@ =~= old(self)@.push(event@));
    }

    /// Takes the event that has waited longest.
    pub fn pop(&mut self) -> (r: Option<Event>)
        ensures
            match r {
                Some(event) => {
                    &&& old(self)@.len() > 0
                    &&& event@ == old(self)@[0]
                    &&& final(self)@ == old(self)@.subrange(1, old(self)@.len() as int)
                },
                None => old(self)@.len() == 0 && final(self)@ == old(self)@,
            },
    {
        let r = self.items.pop_front();
        assert(r is Some ==> self@ =~= old(self)@.subrange(1, old(self)@.len() as int));
        assert(r is None ==> self@ =~= old(self)@);
        r
    }
}

} // verus!
