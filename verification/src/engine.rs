//! The engine: one node's ARP resolver and IPv4 layer behind a handful of
//! calls. The host hands in frames and instants and takes out events.
use crate::event::{Event, EventQueue, EventView};
use crate::fail::Fail;
use crate::options::Options;
use crate::protocols::arp::cache::{live_order, lookup, purged, snapshot_of, ArpSnapshot};
use crate::protocols::arp::peer::{
    future_outcome, learned, lemma_advance_settles, queries_wf, query_effect, receive_effect,
    release_effect, request_events, retry_targets, run_all, step_all, ArpFuture, ArpPeer,
    PeerConfig, PeerState,
};
use crate::protocols::ethernet2::frame::{attach_failure, payload_of, Frame};
use crate::protocols::ethernet2::header::{ether_type_of, EtherType};
use crate::protocols::ethernet2::mac_address::MacAddress;
use crate::protocols::ipv4::address::Ipv4Addr;
use crate::protocols::ipv4::packet::{packet_failure, Ipv4Packet};
use crate::time::Timestamp;
use vstd::prelude::*;

verus! {

/// What an engine holds at one moment.
pub struct EngineState {
    /// The latest instant that the engine was told of.
    pub clock: Timestamp,
    /// The state of the ARP resolver.
    pub arp: PeerState,
    /// The events that wait for the host, oldest first.
    pub events: Seq<EventView>,
}

/// What the resolver of an engine with the options `options` is made with.
pub open spec fn config_of(options: Options) -> PeerConfig {
    PeerConfig {
        link_addr: options.my_link_addr,
        ipv4_addr: options.my_ipv4_addr,
        request_timeout: options.arp.effective_request_timeout(),
        retry_count: options.arp.effective_retry_count(),
        cache_ttl: options.arp.effective_cache_ttl(),
    }
}

/// The state after the engine was told that it is `now`. The clock never
/// runs back: an instant before the clock counts as the clock. Every query
/// advances to the clock and the requests that this sets off wait behind
/// the events that waited before.
pub open spec fn advanced(cfg: PeerConfig, st: EngineState, now: Timestamp) -> EngineState {
    let clock = st.clock.latest(now);
    EngineState {
        clock,
        arp: PeerState {
            queries: step_all(st.arp.queries, clock, cfg.request_timeout, cfg.retry_count),
            ..st.arp
        },
        events: st.events + request_events(
            cfg,
            retry_targets(st.arp.queries, clock, cfg.retry_count),
        ),
    }
}

/// The state in which `poll` looks for an event: the present one where an
/// event waits, and else the one after advancing to `now`.
pub open spec fn before_take(cfg: PeerConfig, st: EngineState, now: Timestamp) -> EngineState {
    if st.events.len() > 0 {
        st
    } else {
        advanced(cfg, st, now)
    }
}

/// What a call of `receive` does.
pub struct Received {
    pub state: EngineState,
    pub result: Result<(), Fail>,
}

/// What the octets `bytes` do when the host hands them in. A frame that
/// does not attach is turned away. A frame that names ARP goes to the
/// resolver, at the instant of the clock. A frame that names IPv4 is
/// checked as a datagram and changes nothing.
pub open spec fn received(cfg: PeerConfig, st: EngineState, bytes: Seq<u8>) -> Received {
    match attach_failure(bytes) {
        Some(e) => Received { state: st, result: Err(e) },
        None => match ether_type_of(bytes) {
            Some(EtherType::Arp) => {
                let effect = receive_effect(cfg, st.arp, payload_of(bytes), st.clock);
                Received {
                    state: EngineState {
                        arp: effect.state,
                        events: st.events + effect.emitted,
                        ..st
                    },
                    result: effect.result,
                }
            },
            _ => match packet_failure(bytes) {
                Some(e) => Received { state: st, result: Err(e) },
                None => Received { state: st, result: Ok(()) },
            },
        },
    }
}

/// Telling the engine twice that it is `now` is telling it once: where
/// the timeout is not zero and the clock has not run out, the second
/// advance changes nothing and sends nothing.
pub proof fn law_advance_is_idempotent(cfg: PeerConfig, st: EngineState, now: Timestamp)
    requires
        cfg.request_timeout.nanos > 0,
        st.clock.latest(now).nanos < u64::MAX,
    ensures
        advanced(cfg, advanced(cfg, st, now), now) == advanced(cfg, st, now),
{
    let clock = st.clock.latest(now);
    let once = advanced(cfg, st, now);
    let twice = advanced(cfg, once, now);
    lemma_advance_settles(st.arp.queries, clock, cfg.request_timeout, cfg.retry_count);
    assert(once.clock.latest(now) == clock);
    assert(twice.events =~= once.events);
}

/// Telling the engine that it is `now` is one poll of its resolver, at the
/// instant at which the clock then stands: what the laws on `run_all` and
/// `requests_for` say of a series of polls, they say of a series of calls
/// that advance the engine.
pub proof fn law_advance_is_one_poll(cfg: PeerConfig, st: EngineState, now: Timestamp)
    ensures
        advanced(cfg, st, now).arp.queries == run_all(
            st.arp.queries,
            seq![st.clock.latest(now)],
            cfg.request_timeout,
            cfg.retry_count,
        ),
        advanced(cfg, st, now).events == st.events + request_events(
            cfg,
            retry_targets(st.arp.queries, st.clock.latest(now), cfg.retry_count),
        ),
{
    let polls = seq![st.clock.latest(now)];
    assert(polls.drop_last() =~= Seq::<Timestamp>::empty());
    assert(polls.last() == st.clock.latest(now));
    assert(run_all(st.arp.queries, polls.drop_last(), cfg.request_timeout, cfg.retry_count)
        == st.arp.queries);
}

/// The clock never runs back, and telling the engine of an instant that
/// has passed is telling it of the present one.
pub proof fn law_clock_is_monotonic(cfg: PeerConfig, st: EngineState, now: Timestamp)
    ensures
        advanced(cfg, st, now).clock.nanos >= st.clock.nanos,
        advanced(cfg, st, now).clock.nanos >= now.nanos,
        now.nanos <= st.clock.nanos ==> advanced(cfg, st, now) == advanced(cfg, st, st.clock),
{
}

/// The protocol engine of one node.
pub struct Engine {
    options: Options,
    clock: Timestamp,
    arp: ArpPeer,
    events: EventQueue,
}

impl View for Engine {
    type V = EngineState;

    closed spec fn view(&self) -> EngineState {
        EngineState { clock: self.clock, arp: self.arp@, events: self.events@ }
    }
}

impl Engine {
    /// The options that the engine was made with.
    pub closed spec fn spec_options(&self) -> Options {
        self.options
    }

    /// What the resolver was made with.
    pub open spec fn config(&self) -> PeerConfig {
        config_of(self.spec_options())
    }

    /// The resolver keeps its rules and was made with the options of the
    /// engine.
    pub closed spec fn wf(&self) -> bool {
        &&& self.arp.wf()
        &&& self.arp.config() == config_of(self.options)
    }

    /// What a well-formed engine keeps: the rules of its queries, and an
    /// order of the cache that names the addresses of its entries, each
    /// once. The laws on queries and on snapshots rest on these.
    pub proof fn lemma_wf(&self)
        requires
            self.wf(),
        ensures
            queries_wf(self@.arp.queries, self@.arp.next_id, self.config().retry_count),
            self@.arp.order.no_duplicates(),
            forall|ip: Ipv4Addr|
                self@.arp.order.contains(ip) <==> self@.arp.cache.dom().contains(ip),
    {
        self.arp.lemma_cache_order();
    }

    /// An engine whose clock stands at `now`, with an empty cache, no
    /// query and no event.
    pub fn new(now: Timestamp, options: Options) -> (r: Engine)
        ensures
            r.wf(),
            r.spec_options() == options,
            r@ == (EngineState {
                clock: now,
                arp: PeerState {
                    cache: Map::empty(),
                    order: Seq::empty(),
                    queries: Seq::empty(),
                    next_id: 0,
                },
                events: Seq::empty(),
            }),
    {
        Engine {
            options,
            clock: now,
            arp: ArpPeer::new(options.my_link_addr, options.my_ipv4_addr, options.arp),
            events: EventQueue::new(),
        }
    }

    #[verifier::when_used_as_spec(spec_options)]
    pub fn options(&self) -> (r: Options)
        ensures
            r == self.spec_options(),
    {
        self.options
    }

    /// The latest instant that the engine was told of.
    pub fn clock(&self) -> (r: Timestamp)
        ensures
            r == self@.clock,
    {
        self.clock
    }

    /// Tells the engine that it is `now`. Deadlines that have passed fire.
    pub fn advance(&mut self, now: Timestamp)
        requires
            old(self).wf(),
        ensures
            final(self).wf(),
            final(self).spec_options() == old(self).spec_options(),
            final(self)@ == advanced(old(self).config(), old(self)@, now),
    {
        self.clock = self.clock.latest(now);
        self.arp.advance(self.clock, &mut self.events);
    }

    /// The next event for the host. Where none waits, the engine first
    /// advances to `now`, and answers `None` if that sets nothing off. An
    /// event is never a failure.
    pub fn poll(&mut self, now: Timestamp) -> (r: Option<Result<Event, Fail>>)
        requires
            old(self).wf(),
        ensures
            final(self).wf(),
            final(self).spec_options() == old(self).spec_options(),
            ({
                let found = before_take(old(self).config(), old(self)@, now);
                match r {
                    Some(Ok(event)) => {
                        &&& found.events.len() > 0
                        &&& event@ == found.events[0]
                        &&& final(self)@ == (EngineState {
                            events: found.events.subrange(1, found.events.len() as int),
                            ..found
                        })
                    },
                    Some(Err(_)) => false,
                    None => found.events.len() == 0 && final(self)@ == found,
                }
            }),
    {
        if self.events.is_empty() {
            self.advance(now);
        }
        match self.events.pop() {
            Some(event) => Some(Ok(event)),
            None => None,
        }
    }

    /// Takes in a frame from the wire.
    pub fn receive(&mut self, bytes: &[u8]) -> (r: Result<(), Fail>)
        requires
            old(self).wf(),
        ensures
            final(self).wf(),
            final(self).spec_options() == old(self).spec_options(),
            final(self)@ == received(old(self).config(), old(self)@, bytes@).state,
            r == received(old(self).config(), old(self)@, bytes@).result,
    {
        let frame = match Frame::attach(bytes) {
            Ok(frame) => frame,
            Err(e) => {
                return Err(e);
            },
        };
        match frame.header().ether_type() {
            Ok(EtherType::Arp) => self.arp.receive(frame, self.clock, &mut self.events),
            Ok(EtherType::Ipv4) => {
                assert(self.events@ =~= self.events@ + Seq::<EventView>::empty());
                match Ipv4Packet::try_from(frame) {
                    Ok(_) => Ok(()),
                    Err(e) => Err(e),
                }
            },
            Err(e) => Err(e),
        }
    }

    /// Asks for the link address of `target`, at the instant of the clock.
    /// The handle that comes back holds the answer of the cache, or waits
    /// on the query for `target`; a query starts, and its request waits
    /// for the host, unless one is pending.
    pub fn arp_query(&mut self, target: Ipv4Addr) -> (r: ArpFuture)
        requires
            old(self).wf(),
        ensures
            final(self).wf(),
            final(self).spec_options() == old(self).spec_options(),
            ({
                let effect = query_effect(
                    old(self).config(),
                    old(self)@.arp,
                    target,
                    old(self)@.clock,
                );
                &&& final(self)@ == (EngineState {
                    arp: effect.state,
                    events: old(self)@.events + effect.emitted,
                    ..old(self)@
                })
                &&& r.ready() == effect.ready
                &&& r.ready() is None ==> r.id() == effect.id
            }),
    {
        self.arp.query(target, self.clock, &mut self.events)
    }

    /// What the handle `future` answers once the engine has advanced to
    /// `now`: nothing while its query is pending, and then the link
    /// address or the failure, at every poll the same.
    pub fn arp_poll(&mut self, future: &ArpFuture, now: Timestamp) -> (r: Option<
        Result<MacAddress, Fail>,
    >)
        requires
            old(self).wf(),
        ensures
            final(self).wf(),
            final(self).spec_options() == old(self).spec_options(),
            final(self)@ == advanced(old(self).config(), old(self)@, now),
            r == future_outcome(final(self)@.arp.queries, future.ready(), future.id()),
    {
        self.advance(now);
        self.arp.poll(future)
    }

    /// Gives up a handle. A query that no handle waits on is dropped.
    pub fn arp_release(&mut self, future: ArpFuture)
        requires
            old(self).wf(),
        ensures
            final(self).wf(),
            final(self).spec_options() == old(self).spec_options(),
            final(self)@ == (EngineState {
                arp: PeerState {
                    queries: release_effect(
                        old(self)@.arp.queries,
                        future.ready(),
                        future.id(),
                    ),
                    ..old(self)@.arp
                },
                ..old(self)@
            }),
    {
        self.arp.release(future);
    }

    /// A copy of the entries of the ARP cache that are live at the instant
    /// of the clock, in the order in which their addresses first came.
    pub fn export_arp_cache(&self) -> (r: ArpSnapshot)
        requires
            self.wf(),
        ensures
            r@ == snapshot_of(self@.arp.order, self@.arp.cache, self@.clock),
    {
        self.arp.export_cache(self.clock)
    }

    /// Stores `link_addr` for `ip` in the ARP cache, as if it had been
    /// learned at the instant of the clock.
    pub fn import_arp_entry(&mut self, ip: Ipv4Addr, link_addr: MacAddress)
        requires
            old(self).wf(),
        ensures
            final(self).wf(),
            final(self).spec_options() == old(self).spec_options(),
            final(self)@ == (EngineState {
                arp: learned(
                    old(self).config(),
                    old(self)@.arp,
                    ip,
                    link_addr,
                    old(self)@.clock,
                ),
                ..old(self)@
            }),
    {
        self.arp.learn(ip, link_addr, self.clock);
    }

    /// Drops the entries of the ARP cache that have expired at the instant
    /// of the clock. The engine never needs it: an expired entry is not
    /// found, purged or not.
    pub fn purge_arp_cache(&mut self)
        requires
            old(self).wf(),
        ensures
            final(self).wf(),
            final(self).spec_options() == old(self).spec_options(),
            final(self)@ == (EngineState {
                arp: PeerState {
                    cache: purged(old(self)@.arp.cache, old(self)@.clock),
                    order: live_order(
                        old(self)@.arp.order,
                        old(self)@.arp.cache,
                        old(self)@.clock,
                    ),
                    ..old(self)@.arp
                },
                ..old(self)@
            }),
    {
        self.arp.purge(self.clock);
    }

    /// The link address that the ARP cache holds for `ip` at the instant
    /// of the clock.
    pub fn arp_lookup(&self, ip: Ipv4Addr) -> (r: Option<MacAddress>)
        requires
            self.wf(),
        ensures
            r == lookup(self@.arp.cache, ip, self@.clock),
            r is Some ==> self@.arp.cache[ip].expiry.nanos >= self@.clock.nanos,
    {
        self.arp.lookup(ip, self.clock)
    }
}

impl ArpFuture {
    /// Polls the handle through the engine that made it: the engine
    /// advances to `now`, so that a caller who polls nothing else still
    /// sees the retries go out and the timeout come.
    pub fn poll(&self, engine: &mut Engine, now: Timestamp) -> (r: Option<
        Result<MacAddress, Fail>,
    >)
        requires
            old(engine).wf(),
        ensures
            final(engine).wf(),
            final(engine).spec_options() == old(engine).spec_options(),
            final(engine)@ == advanced(old(engine).config(), old(engine)@, now),
            r == future_outcome(final(engine)@.arp.queries, self.ready(), self.id()),
    {
        engine.arp_poll(self, now)
    }

    /// Gives the handle up to the engine that made it. The query that it
    /// waited on is dropped with its last handle.
    pub fn release(self, engine: &mut Engine)
        requires
            old(engine).wf(),
        ensures
            final(engine).wf(),
            final(engine).spec_options() == old(engine).spec_options(),
            final(engine)@ == (EngineState {
                arp: PeerState {
                    queries: release_effect(
                        old(engine)@.arp.queries,
                        self.ready(),
                        self.id(),
                    ),
                    ..old(engine)@.arp
                },
                ..old(engine)@
            }),
    {
        engine.arp_release(self);
    }
}

} // verus!
