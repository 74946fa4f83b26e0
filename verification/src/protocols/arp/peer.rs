//! The ARP resolver of a node: its cache, the queries under way, and what
//! it does with a request, a reply, and the passing of time.
use super::cache::{
    live_order, lookup, purged, snapshot_of, ArpCache, ArpSnapshot, CacheEntry,
};
use super::pdu::{ArpOp, ArpPdu};
use super::query::Query;
use crate::deferred::DeferredResult;
use crate::event::{Event, EventQueue, EventView};
use crate::fail::Fail;
use crate::options::ArpOptions;
use crate::protocols::ethernet2::frame::{payload_of, Frame};
use crate::protocols::ethernet2::mac_address::MacAddress;
use crate::protocols::ipv4::address::Ipv4Addr;
use crate::time::{Duration, Timestamp};
use vstd::prelude::*;

verus! {

/// What a resolver was made with and never changes.
pub struct PeerConfig {
    pub link_addr: MacAddress,
    pub ipv4_addr: Ipv4Addr,
    pub request_timeout: Duration,
    pub retry_count: u64,
    pub cache_ttl: Duration,
}

/// What a resolver holds at one moment.
pub struct PeerState {
    /// The entries of the cache, the expired ones too.
    pub cache: Map<Ipv4Addr, CacheEntry>,
    /// The addresses of the cache in the order in which they first came.
    pub order: Seq<Ipv4Addr>,
    /// The queries that some handle waits on, oldest first.
    pub queries: Seq<Query>,
    /// The name that the next query gets.
    pub next_id: u64,
}

/// The rules that the queries of a resolver keep: their names rise and lie
/// below the next name, each has a handle, none counts more attempts than
/// are allowed, and no address has two pending queries.
pub open spec fn queries_wf(qs: Seq<Query>, next_id: u64, retry_count: u64) -> bool {
    &&& forall|i: int, j: int| 0 <= i < j < qs.len() ==> qs[i].id < qs[j].id
    &&& forall|i: int|
        0 <= i < qs.len() ==> (#[trigger] qs[i]).id < next_id && qs[i].handles >= 1
            && qs[i].attempt <= retry_count
    &&& forall|i: int, j: int|
        0 <= i < j < qs.len() && qs[i].spec_is_pending() && qs[j].spec_is_pending()
            ==> qs[i].target != qs[j].target
}

pub open spec fn is_pending_for(q: Query, target: Ipv4Addr) -> bool {
    q.spec_is_pending() && q.target == target
}

/// Whether a query for `target` is pending.
pub open spec fn has_pending(qs: Seq<Query>, target: Ipv4Addr) -> bool {
    exists|i: int| 0 <= i < qs.len() && is_pending_for(#[trigger] qs[i], target)
}

/// The place of the pending query for `target`.
pub open spec fn pending_index(qs: Seq<Query>, target: Ipv4Addr) -> int {
    choose|i: int| 0 <= i < qs.len() && is_pending_for(#[trigger] qs[i], target)
}

/// Whether a query has the name `id`.
pub open spec fn has_id(qs: Seq<Query>, id: u64) -> bool {
    exists|i: int| 0 <= i < qs.len() && (#[trigger] qs[i]).id == id
}

/// The place of the query with the name `id`.
pub open spec fn index_of_id(qs: Seq<Query>, id: u64) -> int {
    choose|i: int| 0 <= i < qs.len() && (#[trigger] qs[i]).id == id
}

/// Every query after the engine has advanced to `now`.
pub open spec fn step_all(
    qs: Seq<Query>,
    now: Timestamp,
    timeout: Duration,
    retry_count: u64,
) -> Seq<Query> {
    Seq::new(qs.len(), |i: int| qs[i].step(now, timeout, retry_count))
}

/// Every query after it was learned that `ip` is at `link_addr`.
pub open spec fn answer_all(qs: Seq<Query>, ip: Ipv4Addr, link_addr: MacAddress) -> Seq<Query> {
    Seq::new(qs.len(), |i: int| qs[i].answered(ip, link_addr))
}

/// The addresses for which a request goes out when the engine advances to
/// `now`, in the order of their queries.
pub open spec fn retry_targets(qs: Seq<Query>, now: Timestamp, retry_count: u64) -> Seq<
    Ipv4Addr,
>
    decreases qs.len(),
{
    if qs.len() == 0 {
        Seq::empty()
    } else {
        let rest = retry_targets(qs.drop_last(), now, retry_count);
        if qs.last().retries(now, retry_count) {
            rest.push(qs.last().target)
        } else {
            rest
        }
    }
}

/// The request by which the node at `link_addr` and `ipv4_addr` asks all
/// stations for `target`.
pub open spec fn request_pdu(link_addr: MacAddress, ipv4_addr: Ipv4Addr, target: Ipv4Addr) -> ArpPdu {
    ArpPdu {
        op: ArpOp::Request,
        sender_link_addr: link_addr,
        sender_ip_addr: ipv4_addr,
        target_link_addr: MacAddress::spec_broadcast(),
        target_ip_addr: target,
    }
}

/// The reply by which the node at `link_addr` and `ipv4_addr` answers the
/// sender of `request`.
pub open spec fn reply_pdu(link_addr: MacAddress, ipv4_addr: Ipv4Addr, request: ArpPdu) -> ArpPdu {
    ArpPdu {
        op: ArpOp::Reply,
        sender_link_addr: link_addr,
        sender_ip_addr: ipv4_addr,
        target_link_addr: request.sender_link_addr,
        target_ip_addr: request.sender_ip_addr,
    }
}

/// The frames of the requests for `targets`, as events.
pub open spec fn request_events(cfg: PeerConfig, targets: Seq<Ipv4Addr>) -> Seq<EventView> {
    Seq::new(
        targets.len(),
        |i: int| EventView::Transmit(request_pdu(cfg.link_addr, cfg.ipv4_addr, targets[i]).datagram()),
    )
}

/// The state after `link_addr` was stored for `ip` at `now`.
pub open spec fn learned(
    cfg: PeerConfig,
    st: PeerState,
    ip: Ipv4Addr,
    link_addr: MacAddress,
    now: Timestamp,
) -> PeerState {
    PeerState {
        cache: st.cache.insert(ip, CacheEntry { link_addr, expiry: now.after(cfg.cache_ttl) }),
        order: if st.cache.dom().contains(ip) {
            st.order
        } else {
            st.order.push(ip)
        },
        ..st
    }
}

/// What a call of `query` does.
pub struct QueryEffect {
    pub state: PeerState,
    pub emitted: Seq<EventView>,
    /// The result, where the handle holds it from the start.
    pub ready: Option<Result<MacAddress, Fail>>,
    /// The name of the query that the handle waits on, where it waits.
    pub id: u64,
}

/// What asking for `target` at `now` does. A live entry of the cache
/// answers at once. A pending query for `target` gets one more handle and
/// nothing is sent. Else a query starts and its first request goes out.
/// A pending query is shared however many handles it has. Where the names
/// of queries have run out, no query can start and the handle holds
/// `ResourceExhausted`.
pub open spec fn query_effect(
    cfg: PeerConfig,
    st: PeerState,
    target: Ipv4Addr,
    now: Timestamp,
) -> QueryEffect {
    let unchanged = QueryEffect { state: st, emitted: Seq::empty(), ready: None, id: 0 };
    let exhausted = QueryEffect { ready: Some(Err(Fail::ResourceExhausted)), ..unchanged };
    match lookup(st.cache, target, now) {
        Some(link_addr) => QueryEffect { ready: Some(Ok(link_addr)), ..unchanged },
        None => if has_pending(st.queries, target) {
            let i = pending_index(st.queries, target);
            let q = st.queries[i];
            QueryEffect {
                state: PeerState { queries: st.queries.update(i, q.with_handle()), ..st },
                id: q.id,
                ..unchanged
            }
        } else if st.next_id < u64::MAX {
            QueryEffect {
                state: PeerState {
                    queries: st.queries.push(
                        Query::fresh(st.next_id, target, now, cfg.request_timeout),
                    ),
                    next_id: (st.next_id + 1) as u64,
                    ..st
                },
                emitted: seq![
                    EventView::Transmit(
                        request_pdu(cfg.link_addr, cfg.ipv4_addr, target).datagram(),
                    ),
                ],
                id: st.next_id,
                ..unchanged
            }
        } else {
            exhausted
        },
    }
}

/// What a call of `receive` does.
pub struct ReceiveEffect {
    pub state: PeerState,
    pub emitted: Seq<EventView>,
    pub result: Result<(), Fail>,
}

/// What the payload `payload` of a frame does when it arrives at `now`.
///
/// What does not parse is turned away and changes nothing. A request for
/// another node is `Ignored`, unless the cache has a live entry for its
/// sender, which is then stored anew. A request for this node has its
/// sender stored and is answered with a reply. A reply has its sender
/// stored and completes the pending query for the sender, if there is one.
pub open spec fn receive_effect(
    cfg: PeerConfig,
    st: PeerState,
    payload: Seq<u8>,
    now: Timestamp,
) -> ReceiveEffect {
    match ArpPdu::parse(payload) {
        Err(e) => ReceiveEffect { state: st, emitted: Seq::empty(), result: Err(e) },
        Ok(pdu) => {
            let known = learned(cfg, st, pdu.sender_ip_addr, pdu.sender_link_addr, now);
            match pdu.op {
                ArpOp::Request => if pdu.target_ip_addr != cfg.ipv4_addr {
                    if lookup(st.cache, pdu.sender_ip_addr, now) is Some {
                        ReceiveEffect { state: known, emitted: Seq::empty(), result: Ok(()) }
                    } else {
                        ReceiveEffect {
                            state: st,
                            emitted: Seq::empty(),
                            result: Err(Fail::Ignored),
                        }
                    }
                } else {
                    ReceiveEffect {
                        state: known,
                        emitted: seq![
                            EventView::Transmit(
                                reply_pdu(cfg.link_addr, cfg.ipv4_addr, pdu).datagram(),
                            ),
                        ],
                        result: Ok(()),
                    }
                },
                ArpOp::Reply => ReceiveEffect {
                    state: PeerState {
                        queries: answer_all(
                            known.queries,
                            pdu.sender_ip_addr,
                            pdu.sender_link_addr,
                        ),
                        ..known
                    },
                    emitted: Seq::empty(),
                    result: Ok(()),
                },
            }
        },
    }
}

/// What a handle answers when it is polled: the result that it holds, or
/// that of the query that it waits on. A handle that waits on a query
/// which the resolver does not hold answers `Ignored`.
pub open spec fn future_outcome(
    qs: Seq<Query>,
    ready: Option<Result<MacAddress, Fail>>,
    id: u64,
) -> Option<Result<MacAddress, Fail>> {
    match ready {
        Some(result) => Some(result),
        None => if has_id(qs, id) {
            qs[index_of_id(qs, id)].result.outcome()
        } else {
            Some(Err(Fail::Ignored))
        },
    }
}

/// The queries after a handle was given up: the query that it waited on
/// has one handle less, and is dropped with its last handle. A query
/// whose handles are no longer counted is kept as it is.
pub open spec fn release_effect(
    qs: Seq<Query>,
    ready: Option<Result<MacAddress, Fail>>,
    id: u64,
) -> Seq<Query> {
    if ready is Some || !has_id(qs, id) {
        qs
    } else {
        let i = index_of_id(qs, id);
        if !qs[i].counts_handles() {
            qs
        } else if qs[i].handles > 1 {
            qs.update(i, Query { handles: (qs[i].handles - 1) as u64, ..qs[i] })
        } else {
            qs.remove(i)
        }
    }
}

/// Advancing keeps the rules of the queries.
pub proof fn lemma_step_all_wf(
    qs: Seq<Query>,
    next_id: u64,
    now: Timestamp,
    timeout: Duration,
    retry_count: u64,
)
    requires
        queries_wf(qs, next_id, retry_count),
    ensures
        queries_wf(step_all(qs, now, timeout, retry_count), next_id, retry_count),
{
    let after = step_all(qs, now, timeout, retry_count);
    assert forall|i: int| 0 <= i < after.len() implies (#[trigger] after[i]).id == qs[i].id
        && after[i].target == qs[i].target && after[i].handles == qs[i].handles && (
    after[i].spec_is_pending() ==> qs[i].spec_is_pending()) && after[i].attempt
        <= retry_count by {
        qs[i].lemma_step_keeps(now, timeout, retry_count);
    }
}

/// An answer keeps the rules of the queries.
pub proof fn lemma_answer_all_wf(
    qs: Seq<Query>,
    next_id: u64,
    retry_count: u64,
    ip: Ipv4Addr,
    link_addr: MacAddress,
)
    requires
        queries_wf(qs, next_id, retry_count),
    ensures
        queries_wf(answer_all(qs, ip, link_addr), next_id, retry_count),
        !has_pending(answer_all(qs, ip, link_addr), ip),
{
    let after = answer_all(qs, ip, link_addr);
    assert forall|i: int| 0 <= i < after.len() implies (#[trigger] after[i]).id == qs[i].id
        && after[i].target == qs[i].target && after[i].handles == qs[i].handles && (
    after[i].spec_is_pending() ==> qs[i].spec_is_pending()) && after[i].attempt
        == qs[i].attempt && !is_pending_for(after[i], ip) by {}
}

/// A request goes out for `x` exactly where a query for `x` is due for
/// another attempt.
pub proof fn lemma_retry_targets(qs: Seq<Query>, now: Timestamp, retry_count: u64, x: Ipv4Addr)
    ensures
        retry_targets(qs, now, retry_count).contains(x) <==> exists|i: int|
            0 <= i < qs.len() && (#[trigger] qs[i]).retries(now, retry_count) && qs[i].target
                == x,
    decreases qs.len(),
{
    if qs.len() > 0 {
        let rest = qs.drop_last();
        let last = qs.last();
        let sent = retry_targets(qs, now, retry_count);
        let sent_before = retry_targets(rest, now, retry_count);
        lemma_retry_targets(rest, now, retry_count, x);
        if sent.contains(x) {
            let k = choose|k: int| 0 <= k < sent.len() && sent[k] == x;
            if last.retries(now, retry_count) && k == sent.len() - 1 {
                assert(qs[qs.len() - 1].retries(now, retry_count) && qs[qs.len() - 1].target
                    == x);
            } else {
                assert(sent_before[k] == x);
                let i = choose|i: int|
                    0 <= i < rest.len() && (#[trigger] rest[i]).retries(now, retry_count)
                        && rest[i].target == x;
                assert(qs[i].retries(now, retry_count) && qs[i].target == x);
            }
        }
        if exists|i: int|
            0 <= i < qs.len() && (#[trigger] qs[i]).retries(now, retry_count) && qs[i].target
                == x {
            let i = choose|i: int|
                0 <= i < qs.len() && (#[trigger] qs[i]).retries(now, retry_count)
                    && qs[i].target == x;
            if i == qs.len() - 1 {
                assert(sent[sent.len() - 1] == x);
            } else {
                assert(rest[i].retries(now, retry_count) && rest[i].target == x);
                let k = choose|k: int| 0 <= k < sent_before.len() && sent_before[k] == x;
                assert(sent[k] == x);
            }
        }
    }
}

/// However many handles wait, one advance sends at most one request for
/// an address: the requests of one advance are for addresses that differ.
pub proof fn law_requests_are_for_distinct_targets(
    qs: Seq<Query>,
    next_id: u64,
    now: Timestamp,
    retry_count: u64,
)
    requires
        queries_wf(qs, next_id, retry_count),
    ensures
        retry_targets(qs, now, retry_count).no_duplicates(),
    decreases qs.len(),
{
    if qs.len() > 0 {
        let rest = qs.drop_last();
        let last = qs.last();
        let sent = retry_targets(qs, now, retry_count);
        let sent_before = retry_targets(rest, now, retry_count);
        assert(queries_wf(rest, next_id, retry_count)) by {
            assert forall|i: int, j: int| 0 <= i < j < rest.len() implies rest[i].id
                < rest[j].id by {
                assert(qs[i].id < qs[j].id);
            }
            assert forall|i: int| 0 <= i < rest.len() implies (#[trigger] rest[i]).id < next_id
                && rest[i].handles >= 1 && rest[i].attempt <= retry_count by {
                assert(qs[i].id < next_id);
            }
            assert forall|i: int, j: int|
                0 <= i < j < rest.len() && rest[i].spec_is_pending()
                    && rest[j].spec_is_pending() implies rest[i].target != rest[j].target by {
                assert(qs[i].target != qs[j].target);
            }
        }
        law_requests_are_for_distinct_targets(rest, next_id, now, retry_count);
        if last.retries(now, retry_count) {
            lemma_retry_targets(rest, now, retry_count, last.target);
            if sent_before.contains(last.target) {
                let i = choose|i: int|
                    0 <= i < rest.len() && (#[trigger] rest[i]).retries(now, retry_count)
                        && rest[i].target == last.target;
                assert(qs[i].target != qs[qs.len() - 1].target);
            }
            assert forall|a: int, b: int| 0 <= a < sent.len() && 0 <= b < sent.len() && a
                != b implies sent[a] != sent[b] by {
                if a == sent.len() - 1 {
                    assert(sent_before[b] == sent[b]);
                } else if b == sent.len() - 1 {
                    assert(sent_before[a] == sent[a]);
                } else {
                    assert(sent_before[a] != sent_before[b]);
                }
            }
        }
    }
}

/// Asking again for an address whose query is pending sends nothing and
/// starts nothing, however many handles the query has: the handle waits
/// on the query that is there, and its attempts and its deadline are as
/// they were.
pub proof fn law_pending_query_is_shared(
    cfg: PeerConfig,
    st: PeerState,
    target: Ipv4Addr,
    now: Timestamp,
)
    requires
        queries_wf(st.queries, st.next_id, cfg.retry_count),
        lookup(st.cache, target, now) is None,
        has_pending(st.queries, target),
    ensures
        ({
            let effect = query_effect(cfg, st, target, now);
            let i = pending_index(st.queries, target);
            &&& effect.emitted == Seq::<EventView>::empty()
            &&& effect.state.queries.len() == st.queries.len()
            &&& effect.state.next_id == st.next_id
            &&& effect.ready is None
            &&& effect.id == st.queries[i].id
            &&& future_outcome(effect.state.queries, effect.ready, effect.id) == future_outcome(
                st.queries,
                None,
                st.queries[i].id,
            )
            &&& forall|j: int|
                0 <= j < st.queries.len() ==> {
                    &&& (#[trigger] effect.state.queries[j]).id == st.queries[j].id
                    &&& effect.state.queries[j].target == st.queries[j].target
                    &&& effect.state.queries[j].attempt == st.queries[j].attempt
                    &&& effect.state.queries[j].deadline == st.queries[j].deadline
                    &&& effect.state.queries[j].result == st.queries[j].result
                }
        }),
{
    let effect = query_effect(cfg, st, target, now);
    let i = pending_index(st.queries, target);
    assert(0 <= i < st.queries.len() && is_pending_for(st.queries[i], target));
    let id = st.queries[i].id;
    let after = effect.state.queries;
    assert(has_id(st.queries, id));
    lemma_index_of_id_stable(st.queries, after, id);
    let k = index_of_id(st.queries, id);
    assert(st.queries[k].id == id);
    if k < i {
        assert(st.queries[k].id < st.queries[i].id);
    }
    if i < k {
        assert(st.queries[i].id < st.queries[k].id);
    }
}

/// A request for this node is answered and its sender is learned,
/// whoever the sender is: the call succeeds, the cache then holds the
/// sender's link address with the expiry `now + cache_ttl`, no query
/// changes, and exactly one frame is queued, a reply from this node to the
/// sender.
pub proof fn law_request_for_this_node_is_answered(
    cfg: PeerConfig,
    st: PeerState,
    payload: Seq<u8>,
    now: Timestamp,
)
    requires
        ArpPdu::parse(payload) is Ok,
        ArpPdu::parse(payload)->Ok_0.op == ArpOp::Request,
        ArpPdu::parse(payload)->Ok_0.target_ip_addr == cfg.ipv4_addr,
    ensures
        ({
            let pdu = ArpPdu::parse(payload)->Ok_0;
            let effect = receive_effect(cfg, st, payload, now);
            let reply = reply_pdu(cfg.link_addr, cfg.ipv4_addr, pdu);
            &&& effect.result == Ok::<(), Fail>(())
            &&& effect.state.cache.dom().contains(pdu.sender_ip_addr)
            &&& effect.state.cache[pdu.sender_ip_addr] == (CacheEntry {
                link_addr: pdu.sender_link_addr,
                expiry: now.after(cfg.cache_ttl),
            })
            &&& lookup(effect.state.cache, pdu.sender_ip_addr, now) == Some(pdu.sender_link_addr)
            &&& effect.state.queries == st.queries
            &&& effect.emitted == seq![EventView::Transmit(reply.datagram())]
            &&& reply.op == ArpOp::Reply
            &&& reply.sender_link_addr == cfg.link_addr && reply.sender_ip_addr == cfg.ipv4_addr
            &&& reply.target_link_addr == pdu.sender_link_addr && reply.target_ip_addr
                == pdu.sender_ip_addr
            &&& crate::protocols::ethernet2::header::dest_addr_of(reply.datagram())
                == pdu.sender_link_addr
            &&& ArpPdu::parse(payload_of(reply.datagram())) == Ok::<ArpPdu, Fail>(reply)
        }),
{
    let pdu = ArpPdu::parse(payload)->Ok_0;
    reply_pdu(cfg.link_addr, cfg.ipv4_addr, pdu).law_datagram_roundtrip();
}

/// A request for another node from a sender that the cache does not know
/// is `Ignored`: nothing is learned, nothing is sent and no query changes.
/// From a sender with a live entry the request is taken and the entry is
/// stored anew, and still nothing is sent.
pub proof fn law_request_for_another_node(
    cfg: PeerConfig,
    st: PeerState,
    payload: Seq<u8>,
    now: Timestamp,
)
    requires
        ArpPdu::parse(payload) is Ok,
        ArpPdu::parse(payload)->Ok_0.op == ArpOp::Request,
        ArpPdu::parse(payload)->Ok_0.target_ip_addr != cfg.ipv4_addr,
    ensures
        ({
            let pdu = ArpPdu::parse(payload)->Ok_0;
            let effect = receive_effect(cfg, st, payload, now);
            &&& effect.emitted == Seq::<EventView>::empty()
            &&& effect.state.queries == st.queries
            &&& lookup(st.cache, pdu.sender_ip_addr, now) is None ==> effect.result == Err::<
                (),
                Fail,
            >(Fail::Ignored) && effect.state == st
            &&& lookup(st.cache, pdu.sender_ip_addr, now) is Some ==> effect.result == Ok::<
                (),
                Fail,
            >(()) && effect.state == learned(
                cfg,
                st,
                pdu.sender_ip_addr,
                pdu.sender_link_addr,
                now,
            )
        }),
{
}

/// A reply from the address that a handle waits for completes the handle:
/// where the query of the handle is pending and asks for the sender of the
/// reply, the handle answers the sender's link address from then on, the
/// cache holds it, and nothing is sent.
pub proof fn law_reply_resolves_handle(
    cfg: PeerConfig,
    st: PeerState,
    payload: Seq<u8>,
    now: Timestamp,
    id: u64,
)
    requires
        queries_wf(st.queries, st.next_id, cfg.retry_count),
        ArpPdu::parse(payload) is Ok,
        ArpPdu::parse(payload)->Ok_0.op == ArpOp::Reply,
        has_id(st.queries, id),
        is_pending_for(
            st.queries[index_of_id(st.queries, id)],
            ArpPdu::parse(payload)->Ok_0.sender_ip_addr,
        ),
    ensures
        ({
            let pdu = ArpPdu::parse(payload)->Ok_0;
            let effect = receive_effect(cfg, st, payload, now);
            &&& effect.result == Ok::<(), Fail>(())
            &&& effect.emitted == Seq::<EventView>::empty()
            &&& future_outcome(effect.state.queries, None, id) == Some(
                Ok::<MacAddress, Fail>(pdu.sender_link_addr),
            )
            &&& lookup(effect.state.cache, pdu.sender_ip_addr, now) == Some(pdu.sender_link_addr)
            &&& !has_pending(effect.state.queries, pdu.sender_ip_addr)
            &&& retry_targets(effect.state.queries, now, cfg.retry_count).contains(
                pdu.sender_ip_addr,
            ) == false
        }),
{
    let pdu = ArpPdu::parse(payload)->Ok_0;
    let effect = receive_effect(cfg, st, payload, now);
    let after = effect.state.queries;
    assert(after =~= answer_all(st.queries, pdu.sender_ip_addr, pdu.sender_link_addr));
    lemma_index_of_id_stable(st.queries, after, id);
    lemma_answer_all_wf(
        st.queries,
        st.next_id,
        cfg.retry_count,
        pdu.sender_ip_addr,
        pdu.sender_link_addr,
    );
    lemma_retry_targets(after, now, cfg.retry_count, pdu.sender_ip_addr);
    if retry_targets(after, now, cfg.retry_count).contains(pdu.sender_ip_addr) {
        let i = choose|i: int|
            0 <= i < after.len() && (#[trigger] after[i]).retries(now, cfg.retry_count)
                && after[i].target == pdu.sender_ip_addr;
        assert(is_pending_for(after[i], pdu.sender_ip_addr));
    }
}

/// The queries after the resolver has advanced to each instant of `polls`
/// in turn.
pub open spec fn run_all(
    qs: Seq<Query>,
    polls: Seq<Timestamp>,
    timeout: Duration,
    retry_count: u64,
) -> Seq<Query>
    decreases polls.len(),
{
    if polls.len() == 0 {
        qs
    } else {
        step_all(
            run_all(qs, polls.drop_last(), timeout, retry_count),
            polls.last(),
            timeout,
            retry_count,
        )
    }
}

/// How often `x` stands in `s`.
pub open spec fn occurrences(s: Seq<Ipv4Addr>, x: Ipv4Addr) -> nat
    decreases s.len(),
{
    if s.len() == 0 {
        0
    } else {
        let once: nat = if s.last() == x {
            1
        } else {
            0
        };
        occurrences(s.drop_last(), x) + once
    }
}

/// The number of requests for `x` that go out while the resolver advances
/// to each instant of `polls` in turn.
pub open spec fn requests_for(
    qs: Seq<Query>,
    polls: Seq<Timestamp>,
    timeout: Duration,
    retry_count: u64,
    x: Ipv4Addr,
) -> nat
    decreases polls.len(),
{
    if polls.len() == 0 {
        0
    } else {
        requests_for(qs, polls.drop_last(), timeout, retry_count, x) + occurrences(
            retry_targets(
                run_all(qs, polls.drop_last(), timeout, retry_count),
                polls.last(),
                retry_count,
            ),
            x,
        )
    }
}

/// Where no query but that at `i` is pending for `x`, one advance sends a
/// request for `x` exactly if the query at `i` is due for another attempt,
/// and then one.
proof fn lemma_occurrences(
    qs: Seq<Query>,
    now: Timestamp,
    retry_count: u64,
    x: Ipv4Addr,
    i: int,
)
    requires
        forall|j: int| 0 <= j < qs.len() && j != i ==> !is_pending_for(#[trigger] qs[j], x),
        0 <= i < qs.len() ==> qs[i].target == x,
    ensures
        occurrences(retry_targets(qs, now, retry_count), x) == if 0 <= i < qs.len()
            && qs[i].retries(now, retry_count) {
            1nat
        } else {
            0nat
        },
    decreases qs.len(),
{
    if qs.len() > 0 {
        let rest = qs.drop_last();
        let last = qs.last();
        assert forall|j: int| 0 <= j < rest.len() && j != i implies !is_pending_for(
            #[trigger] rest[j],
            x,
        ) by {
            assert(!is_pending_for(qs[j], x));
        }
        lemma_occurrences(rest, now, retry_count, x, i);
        let sent_before = retry_targets(rest, now, retry_count);
        if last.retries(now, retry_count) {
            assert(sent_before.push(last.target).drop_last() =~= sent_before);
            if i != qs.len() - 1 {
                assert(!is_pending_for(qs[qs.len() - 1], x));
            }
        }
    }
}

/// Advancing all queries is advancing each.
proof fn lemma_run_all(
    qs: Seq<Query>,
    next_id: u64,
    polls: Seq<Timestamp>,
    timeout: Duration,
    retry_count: u64,
)
    requires
        queries_wf(qs, next_id, retry_count),
    ensures
        run_all(qs, polls, timeout, retry_count).len() == qs.len(),
        queries_wf(run_all(qs, polls, timeout, retry_count), next_id, retry_count),
        forall|j: int|
            0 <= j < qs.len() ==> (#[trigger] run_all(qs, polls, timeout, retry_count)[j])
                == qs[j].run(polls, timeout, retry_count),
    decreases polls.len(),
{
    if polls.len() > 0 {
        lemma_run_all(qs, next_id, polls.drop_last(), timeout, retry_count);
        lemma_step_all_wf(
            run_all(qs, polls.drop_last(), timeout, retry_count),
            next_id,
            polls.last(),
            timeout,
            retry_count,
        );
    } else {
        assert forall|j: int| 0 <= j < qs.len() implies qs[j] == qs[j].run(
            polls,
            timeout,
            retry_count,
        ) by {}
    }
}

/// A query never comes back to life: one that is over stays over through
/// every advance.
proof fn lemma_run_stays_over(
    q: Query,
    polls: Seq<Timestamp>,
    timeout: Duration,
    retry_count: u64,
)
    ensures
        q.run(polls, timeout, retry_count).target == q.target,
        q.run(polls, timeout, retry_count).spec_is_pending() ==> q.spec_is_pending(),
    decreases polls.len(),
{
    if polls.len() > 0 {
        lemma_run_stays_over(q, polls.drop_last(), timeout, retry_count);
        q.run(polls.drop_last(), timeout, retry_count).lemma_step_keeps(
            polls.last(),
            timeout,
            retry_count,
        );
    }
}

/// The requests of a query that nobody answers, counted where they go
/// out: however the resolver is polled and whatever other queries it
/// holds, the requests for the address of a pending query that go out
/// after its first are those of that query alone, never more than
/// `retry_count`, and exactly `retry_count` once the query has failed with
/// `Timeout`. With the first request, which asking sends, that makes one
/// and `retry_count`.
pub proof fn law_requests_of_an_unanswered_query(
    qs: Seq<Query>,
    next_id: u64,
    polls: Seq<Timestamp>,
    timeout: Duration,
    retry_count: u64,
    i: int,
)
    requires
        queries_wf(qs, next_id, retry_count),
        0 <= i < qs.len(),
        qs[i].spec_is_pending(),
        qs[i].attempt == 0,
    ensures
        ({
            let end = run_all(qs, polls, timeout, retry_count);
            let sent = requests_for(qs, polls, timeout, retry_count, qs[i].target);
            &&& end.len() == qs.len()
            &&& end[i] == qs[i].run(polls, timeout, retry_count)
            &&& sent == qs[i].requests_in(polls, timeout, retry_count)
            &&& sent == end[i].attempt
            &&& 1 + sent <= 1 + retry_count
            &&& end[i].result == DeferredResult::<MacAddress>::Failed(Fail::Timeout) ==> 1
                + sent == 1 + retry_count
            &&& end[i].result == DeferredResult::<MacAddress>::Pending || end[i].result
                == DeferredResult::<MacAddress>::Failed(Fail::Timeout)
        }),
    decreases polls.len(),
{
    let x = qs[i].target;
    lemma_run_all(qs, next_id, polls, timeout, retry_count);
    qs[i].law_requests_until_timeout(polls, timeout, retry_count);
    if polls.len() > 0 {
        let rest = polls.drop_last();
        law_requests_of_an_unanswered_query(qs, next_id, rest, timeout, retry_count, i);
        lemma_run_all(qs, next_id, rest, timeout, retry_count);
        let before = run_all(qs, rest, timeout, retry_count);
        assert forall|j: int| 0 <= j < before.len() && j != i implies !is_pending_for(
            #[trigger] before[j],
            x,
        ) by {
            lemma_run_stays_over(qs[j], rest, timeout, retry_count);
            if is_pending_for(before[j], x) {
                assert(is_pending_for(qs[j], x));
                if j < i {
                    assert(qs[j].target != qs[i].target);
                } else {
                    assert(qs[i].target != qs[j].target);
                }
            }
        }
        lemma_run_stays_over(qs[i], rest, timeout, retry_count);
        lemma_occurrences(before, polls.last(), retry_count, x, i);
    }
}

/// After a reply no request is generated for its sender and the handles
/// that waited for it answer for good: once it is learned that `ip` is at
/// `link_addr`, no advance sends a request for `ip`, however the resolver
/// is polled, and a handle whose query was pending for `ip` answers
/// `link_addr` after every one of them, never `Timeout`. A request that
/// was queued before the reply came still waits for the host.
pub proof fn law_no_request_after_reply(
    qs: Seq<Query>,
    next_id: u64,
    ip: Ipv4Addr,
    link_addr: MacAddress,
    polls: Seq<Timestamp>,
    timeout: Duration,
    retry_count: u64,
    id: u64,
)
    requires
        queries_wf(qs, next_id, retry_count),
    ensures
        requests_for(answer_all(qs, ip, link_addr), polls, timeout, retry_count, ip) == 0,
        has_id(qs, id) && is_pending_for(qs[index_of_id(qs, id)], ip) ==> future_outcome(
            run_all(answer_all(qs, ip, link_addr), polls, timeout, retry_count),
            None,
            id,
        ) == Some(Ok::<MacAddress, Fail>(link_addr)),
    decreases polls.len(),
{
    let answered = answer_all(qs, ip, link_addr);
    lemma_answer_all_wf(qs, next_id, retry_count, ip, link_addr);
    lemma_run_all(answered, next_id, polls, timeout, retry_count);
    let end = run_all(answered, polls, timeout, retry_count);
    if polls.len() > 0 {
        let rest = polls.drop_last();
        law_no_request_after_reply(qs, next_id, ip, link_addr, rest, timeout, retry_count, id);
        lemma_run_all(answered, next_id, rest, timeout, retry_count);
        let before = run_all(answered, rest, timeout, retry_count);
        assert forall|j: int| 0 <= j < before.len() implies !is_pending_for(
            #[trigger] before[j],
            ip,
        ) by {
            lemma_run_stays_over(answered[j], rest, timeout, retry_count);
            assert(!is_pending_for(answered[j], ip));
        }
        lemma_occurrences(before, polls.last(), retry_count, ip, -1);
    }
    if has_id(qs, id) && is_pending_for(qs[index_of_id(qs, id)], ip) {
        let k = index_of_id(qs, id);
        assert(0 <= k < qs.len() && qs[k].id == id);
        assert forall|j: int| 0 <= j < qs.len() implies (#[trigger] end[j]).id == qs[j].id by {
            lemma_run_keeps_id(answered[j], polls, timeout, retry_count);
        }
        lemma_index_of_id_stable(qs, end, id);
        qs[k].law_answer_resolves(link_addr, polls, timeout, retry_count);
        assert(answered[k] == qs[k].answered(qs[k].target, link_addr));
    }
}

/// Advancing changes no name.
proof fn lemma_run_keeps_id(q: Query, polls: Seq<Timestamp>, timeout: Duration, retry_count: u64)
    ensures
        q.run(polls, timeout, retry_count).id == q.id,
    decreases polls.len(),
{
    if polls.len() > 0 {
        lemma_run_keeps_id(q, polls.drop_last(), timeout, retry_count);
        q.run(polls.drop_last(), timeout, retry_count).lemma_step_keeps(
            polls.last(),
            timeout,
            retry_count,
        );
    }
}

/// Queries that keep their names keep their places.
proof fn lemma_index_of_id_stable(qs: Seq<Query>, after: Seq<Query>, id: u64)
    requires
        forall|i: int, j: int| 0 <= i < j < qs.len() ==> qs[i].id < qs[j].id,
        after.len() == qs.len(),
        forall|i: int| 0 <= i < qs.len() ==> (#[trigger] after[i]).id == qs[i].id,
        has_id(qs, id),
    ensures
        has_id(after, id),
        index_of_id(after, id) == index_of_id(qs, id),
        0 <= index_of_id(qs, id) < qs.len(),
{
    let k = index_of_id(qs, id);
    assert(0 <= k < qs.len() && qs[k].id == id);
    assert(after[k].id == id);
    let k2 = index_of_id(after, id);
    assert(0 <= k2 < after.len() && after[k2].id == id);
    assert(qs[k2].id == id);
    if k2 < k {
        assert(qs[k2].id < qs[k].id);
    }
    if k < k2 {
        assert(qs[k].id < qs[k2].id);
    }
}

/// A result is final: once a handle has answered, neither the passing of
/// time nor anything that is learned changes what it answers.
pub proof fn law_outcome_is_final(
    qs: Seq<Query>,
    next_id: u64,
    retry_count: u64,
    id: u64,
    now: Timestamp,
    timeout: Duration,
    ip: Ipv4Addr,
    link_addr: MacAddress,
)
    requires
        queries_wf(qs, next_id, retry_count),
        has_id(qs, id),
        future_outcome(qs, None, id) is Some,
    ensures
        future_outcome(step_all(qs, now, timeout, retry_count), None, id) == future_outcome(
            qs,
            None,
            id,
        ),
        future_outcome(answer_all(qs, ip, link_addr), None, id) == future_outcome(qs, None, id),
{
    let stepped = step_all(qs, now, timeout, retry_count);
    let answered = answer_all(qs, ip, link_addr);
    assert forall|i: int| 0 <= i < qs.len() implies (#[trigger] stepped[i]).id
        == qs[i].id by {
        qs[i].lemma_step_keeps(now, timeout, retry_count);
    }
    lemma_index_of_id_stable(qs, stepped, id);
    lemma_index_of_id_stable(qs, answered, id);
    let k = index_of_id(qs, id);
    qs[k].lemma_step_keeps(now, timeout, retry_count);
}

/// After an advance nothing is due: where the timeout is not zero and the
/// clock has not run out, no request goes out at the instant to which the
/// queries have just advanced, and advancing again changes no query.
pub proof fn lemma_advance_settles(
    qs: Seq<Query>,
    now: Timestamp,
    timeout: Duration,
    retry_count: u64,
)
    requires
        timeout.nanos > 0,
        now.nanos < u64::MAX,
    ensures
        retry_targets(step_all(qs, now, timeout, retry_count), now, retry_count)
            == Seq::<Ipv4Addr>::empty(),
        step_all(step_all(qs, now, timeout, retry_count), now, timeout, retry_count)
            == step_all(qs, now, timeout, retry_count),
    decreases qs.len(),
{
    let once = step_all(qs, now, timeout, retry_count);
    assert forall|i: int| 0 <= i < qs.len() implies (#[trigger] once[i]).step(
        now,
        timeout,
        retry_count,
    ) == once[i] && !once[i].retries(now, retry_count) by {
        qs[i].law_step_idempotent(now, timeout, retry_count);
    }
    assert(step_all(once, now, timeout, retry_count) =~= once);
    if qs.len() > 0 {
        lemma_advance_settles(qs.drop_last(), now, timeout, retry_count);
        assert(once.drop_last() =~= step_all(qs.drop_last(), now, timeout, retry_count));
        assert(!once.last().retries(now, retry_count));
    }
}

/// A handle on the result of an ARP query.
///
/// It holds the result where that was known when it was made. Else it
/// names the query that it waits on, and the resolver keeps that query
/// until the handle is given up.
#[derive(Debug)]
pub struct ArpFuture {
    ready: Option<Result<MacAddress, Fail>>,
    id: u64,
}

impl ArpFuture {
    /// The result, where the handle holds it.
    pub closed spec fn ready(&self) -> Option<Result<MacAddress, Fail>> {
        self.ready
    }

    /// The name of the query that the handle waits on.
    pub closed spec fn id(&self) -> u64 {
        self.id
    }
}

/// The ARP resolver of a node.
pub struct ArpPeer {
    link_addr: MacAddress,
    ipv4_addr: Ipv4Addr,
    request_timeout: Duration,
    retry_count: u64,
    cache: ArpCache,
    queries: Vec<Query>,
    next_id: u64,
}

impl View for ArpPeer {
    type V = PeerState;

    closed spec fn view(&self) -> PeerState {
        PeerState {
            cache: self.cache@,
            order: self.cache.order(),
            queries: self.queries@,
            next_id: self.next_id,
        }
    }
}

impl ArpPeer {
    pub closed spec fn config(&self) -> PeerConfig {
        PeerConfig {
            link_addr: self.link_addr,
            ipv4_addr: self.ipv4_addr,
            request_timeout: self.request_timeout,
            retry_count: self.retry_count,
            cache_ttl: self.cache.ttl(),
        }
    }

    /// The cache keeps its own rules.
    pub closed spec fn cache_wf(&self) -> bool {
        self.cache.wf()
    }

    pub open spec fn wf(&self) -> bool {
        &&& self.cache_wf()
        &&& queries_wf(self@.queries, self@.next_id, self.config().retry_count)
    }

    /// The order of the cache names the addresses of its entries, each
    /// once.
    pub proof fn lemma_cache_order(&self)
        requires
            self.wf(),
        ensures
            self@.order.no_duplicates(),
            forall|ip: Ipv4Addr| self@.order.contains(ip) <==> self@.cache.dom().contains(ip),
    {
        self.cache.lemma_order();
    }

    /// A resolver for the node at `link_addr` and `ipv4_addr` with an
    /// empty cache and no query.
    pub fn new(link_addr: MacAddress, ipv4_addr: Ipv4Addr, options: ArpOptions) -> (r: ArpPeer)
        ensures
            r.wf(),
            r.config() == (PeerConfig {
                link_addr,
                ipv4_addr,
                request_timeout: options.effective_request_timeout(),
                retry_count: options.effective_retry_count(),
                cache_ttl: options.effective_cache_ttl(),
            }),
            r@ == (PeerState {
                cache: Map::empty(),
                order: Seq::empty(),
                queries: Seq::empty(),
                next_id: 0,
            }),
    {
        ArpPeer {
            link_addr,
            ipv4_addr,
            request_timeout: options.effective_request_timeout(),
            retry_count: options.effective_retry_count(),
            cache: ArpCache::new(options.effective_cache_ttl()),
            queries: Vec::new(),
            next_id: 0,
        }
    }

    fn find_pending(&self, target: Ipv4Addr) -> (r: Option<usize>)
        requires
            self.wf(),
        ensures
            match r {
                Some(i) => {
                    &&& i < self@.queries.len()
                    &&& has_pending(self@.queries, target)
                    &&& pending_index(self@.queries, target) == i
                },
                None => !has_pending(self@.queries, target),
            },
    {
        let mut i: usize = 0;
        while i < self.queries.len()
            invariant
                self.wf(),
                i <= self.queries@.len(),
                forall|j: int| 0 <= j < i ==> !is_pending_for(#[trigger] self.queries@[j], target),
            decreases self.queries@.len() - i,
        {
            let q = self.queries[i];
            if q.is_pending() && q.target == target {
                proof {
                    let qs = self@.queries;
                    assert(is_pending_for(qs[i as int], target));
                    let k = pending_index(qs, target);
                    assert(0 <= k < qs.len() && is_pending_for(qs[k], target));
                    if i < k {
                        assert(qs[i as int].target != qs[k].target);
                    }
                }
                return Some(i);
            }
            i = i + 1;
        }
        None
    }

    fn find_id(&self, id: u64) -> (r: Option<usize>)
        requires
            self.wf(),
        ensures
            match r {
                Some(i) => {
                    &&& i < self@.queries.len()
                    &&& has_id(self@.queries, id)
                    &&& index_of_id(self@.queries, id) == i
                },
                None => !has_id(self@.queries, id),
            },
    {
        let mut i: usize = 0;
        while i < self.queries.len()
            invariant
                self.wf(),
                i <= self.queries@.len(),
                forall|j: int| 0 <= j < i ==> (#[trigger] self.queries@[j]).id != id,
            decreases self.queries@.len() - i,
        {
            if self.queries[i].id == id {
                proof {
                    let qs = self@.queries;
                    assert(qs[i as int].id == id);
                    let k = index_of_id(qs, id);
                    assert(0 <= k < qs.len() && qs[k].id == id);
                    if i < k {
                        assert(qs[i as int].id < qs[k].id);
                    }
                }
                return Some(i);
            }
            i = i + 1;
        }
        None
    }

    fn request_for(&self, target: Ipv4Addr) -> (r: Event)
        ensures
            r@ == EventView::Transmit(
                request_pdu(self.config().link_addr, self.config().ipv4_addr, target).datagram(),
            ),
    {
        let pdu = ArpPdu {
            op: ArpOp::Request,
            sender_link_addr: self.link_addr,
            sender_ip_addr: self.ipv4_addr,
            target_link_addr: MacAddress::broadcast(),
            target_ip_addr: target,
        };
        Event::Transmit(pdu.to_datagram())
    }

    /// Asks for the link address of `target`. The handle that comes back
    /// holds the answer of the cache, or waits on the query for `target`,
    /// which starts now unless one is pending.
    pub fn query(&mut self, target: Ipv4Addr, now: Timestamp, events: &mut EventQueue) -> (r:
        ArpFuture)
        requires
            old(self).wf(),
        ensures
            final(self).wf(),
            final(self).config() == old(self).config(),
            final(self)@ == query_effect(old(self).config(), old(self)@, target, now).state,
            final(events)@ == old(events)@ + query_effect(
                old(self).config(),
                old(self)@,
                target,
                now,
            ).emitted,
            r.ready() == query_effect(old(self).config(), old(self)@, target, now).ready,
            r.ready() is None ==> r.id() == query_effect(
                old(self).config(),
                old(self)@,
                target,
                now,
            ).id,
    {
        let ghost before = events@;
        if let Some(link_addr) = self.cache.get(target, now) {
            assert(events@ =~= before + Seq::<EventView>::empty());
            return ArpFuture { ready: Some(Ok(link_addr)), id: 0 };
        }
        match self.find_pending(target) {
            Some(i) => {
                let q = self.queries[i];
                assert(events@ =~= before + Seq::<EventView>::empty());
                self.queries[i] = q.add_handle();
                ArpFuture { ready: None, id: q.id }
            },
            None => {
                if self.next_id < u64::MAX {
                    let id = self.next_id;
                    let event = self.request_for(target);
                    self.queries.push(Query::new(id, target, now, self.request_timeout));
                    self.next_id = id + 1;
                    events.push(event);
                    proof {
                        assert(events@ =~= before + seq![event@]);
                        let qs = self.queries@;
                        assert forall|i: int, j: int|
                            0 <= i < j < qs.len() && qs[i].spec_is_pending()
                                && qs[j].spec_is_pending() implies qs[i].target
                            != qs[j].target by {
                            if j == qs.len() - 1 {
                                assert(!is_pending_for(old(self).queries@[i], target));
                            }
                        }
                    }
                    ArpFuture { ready: None, id }
                } else {
                    assert(events@ =~= before + Seq::<EventView>::empty());
                    ArpFuture { ready: Some(Err(Fail::ResourceExhausted)), id: 0 }
                }
            },
        }
    }

    /// What the handle `future` answers now. Nothing changes.
    pub fn poll(&self, future: &ArpFuture) -> (r: Option<Result<MacAddress, Fail>>)
        requires
            self.wf(),
        ensures
            r == future_outcome(self@.queries, future.ready(), future.id()),
    {
        match future.ready {
            Some(result) => Some(result),
            None => match self.find_id(future.id) {
                Some(i) => self.queries[i].result.poll(),
                None => Some(Err(Fail::Ignored)),
            },
        }
    }

    /// Gives up a handle. The query that it waited on is dropped with its
    /// last handle: no request goes out for it any more.
    pub fn release(&mut self, future: ArpFuture)
        requires
            old(self).wf(),
        ensures
            final(self).wf(),
            final(self).config() == old(self).config(),
            final(self)@ == (PeerState {
                queries: release_effect(old(self)@.queries, future.ready(), future.id()),
                ..old(self)@
            }),
    {
        if future.ready.is_some() {
            return ;
        }
        match self.find_id(future.id) {
            Some(i) => {
                let q = self.queries[i];
                if q.handles == u64::MAX {
                    // the handles of this query are no longer counted.
                } else if q.handles > 1 {
                    self.queries[i] = Query {
                        id: q.id,
                        target: q.target,
                        attempt: q.attempt,
                        deadline: q.deadline,
                        handles: q.handles - 1,
                        result: q.result,
                    };
                } else {
                    self.queries.remove(i);
                }
            },
            None => {},
        }
    }

    /// Advances every query to `now`: a query whose deadline has passed is
    /// asked again, or fails where no attempt is left. The requests go to
    /// `events` in the order of the queries.
    pub fn advance(&mut self, now: Timestamp, events: &mut EventQueue)
        requires
            old(self).wf(),
        ensures
            final(self).wf(),
            final(self).config() == old(self).config(),
            final(self)@ == (PeerState {
                queries: step_all(
                    old(self)@.queries,
                    now,
                    old(self).config().request_timeout,
                    old(self).config().retry_count,
                ),
                ..old(self)@
            }),
            final(events)@ == old(events)@ + request_events(
                old(self).config(),
                retry_targets(old(self)@.queries, now, old(self).config().retry_count),
            ),
    {
        let ghost cfg = self.config();
        let ghost start = self@;
        let ghost waiting = events@;
        let n = self.queries.len();
        let mut i: usize = 0;
        proof {
            assert(start.queries.take(0) =~= Seq::<Query>::empty());
            assert(events@ =~= waiting + request_events(
                cfg,
                retry_targets(start.queries.take(0), now, cfg.retry_count),
            ));
        }
        while i < n
            invariant
                n == start.queries.len(),
                self.queries@.len() == n,
                i <= n,
                self.config() == cfg,
                self.cache_wf(),
                self@.cache == start.cache,
                self@.order == start.order,
                self@.next_id == start.next_id,
                forall|j: int|
                    0 <= j < i ==> self.queries@[j] == (#[trigger] start.queries[j]).step(
                        now,
                        cfg.request_timeout,
                        cfg.retry_count,
                    ),
                forall|j: int| i <= j < n ==> self.queries@[j] == #[trigger] start.queries[j],
                events@ == waiting + request_events(
                    cfg,
                    retry_targets(start.queries.take(i as int), now, cfg.retry_count),
                ),
            decreases n - i,
        {
            let q = self.queries[i];
            let (next, send) = q.advance(now, self.request_timeout, self.retry_count);
            self.queries[i] = next;
            let ghost sent = retry_targets(start.queries.take(i as int), now, cfg.retry_count);
            proof {
                assert(start.queries.take(i + 1).drop_last() =~= start.queries.take(i as int));
                assert(start.queries.take(i + 1).last() == start.queries[i as int]);
            }
            if send {
                let event = self.request_for(q.target);
                events.push(event);
                assert(events@ =~= waiting + request_events(cfg, sent.push(q.target)));
            }
            i = i + 1;
        }
        proof {
            assert(start.queries.take(n as int) =~= start.queries);
            assert(self.queries@ =~= step_all(
                start.queries,
                now,
                cfg.request_timeout,
                cfg.retry_count,
            ));
            lemma_step_all_wf(
                start.queries,
                start.next_id,
                now,
                cfg.request_timeout,
                cfg.retry_count,
            );
        }
    }

    /// Stores `link_addr` for `ip`, as if it had been learned at `now`.
    pub fn learn(&mut self, ip: Ipv4Addr, link_addr: MacAddress, now: Timestamp)
        requires
            old(self).wf(),
        ensures
            final(self).wf(),
            final(self).config() == old(self).config(),
            final(self)@ == learned(old(self).config(), old(self)@, ip, link_addr, now),
    {
        self.cache.insert(ip, link_addr, now);
    }

    /// Drops the entries of the cache that have expired at `now`. No
    /// lookup and no snapshot at `now` or later is changed by it.
    pub fn purge(&mut self, now: Timestamp)
        requires
            old(self).wf(),
        ensures
            final(self).wf(),
            final(self).config() == old(self).config(),
            final(self)@ == (PeerState {
                cache: purged(old(self)@.cache, now),
                order: live_order(old(self)@.order, old(self)@.cache, now),
                ..old(self)@
            }),
    {
        self.cache.purge(now);
    }

    /// The link address that the cache holds for `ip` at `now`.
    pub fn lookup(&self, ip: Ipv4Addr, now: Timestamp) -> (r: Option<MacAddress>)
        requires
            self.wf(),
        ensures
            r == lookup(self@.cache, ip, now),
            r is Some ==> self@.cache.dom().contains(ip) && self@.cache[ip].expiry.nanos
                >= now.nanos,
    {
        self.cache.get(ip, now)
    }

    /// A copy of the live entries of the cache at `now`.
    pub fn export_cache(&self, now: Timestamp) -> (r: ArpSnapshot)
        requires
            self.wf(),
        ensures
            r@ == snapshot_of(self@.order, self@.cache, now),
    {
        self.cache.export(now)
    }

    fn answer_all(&mut self, ip: Ipv4Addr, link_addr: MacAddress)
        requires
            old(self).wf(),
        ensures
            final(self).wf(),
            final(self).config() == old(self).config(),
            final(self)@ == (PeerState {
                queries: answer_all(old(self)@.queries, ip, link_addr),
                ..old(self)@
            }),
    {
        let ghost cfg = self.config();
        let ghost start = self@;
        let n = self.queries.len();
        let mut i: usize = 0;
        while i < n
            invariant
                n == start.queries.len(),
                self.queries@.len() == n,
                i <= n,
                self.config() == cfg,
                self.cache_wf(),
                self@.cache == start.cache,
                self@.order == start.order,
                self@.next_id == start.next_id,
                forall|j: int|
                    0 <= j < i ==> self.queries@[j] == (#[trigger] start.queries[j]).answered(
                        ip,
                        link_addr,
                    ),
                forall|j: int| i <= j < n ==> self.queries@[j] == #[trigger] start.queries[j],
            decreases n - i,
        {
            let q = self.queries[i];
            self.queries[i] = q.answer(ip, link_addr);
            i = i + 1;
        }
        proof {
            assert(self.queries@ =~= answer_all(start.queries, ip, link_addr));
            lemma_answer_all_wf(start.queries, start.next_id, cfg.retry_count, ip, link_addr);
        }
    }

    /// Takes in a frame that names ARP, as it arrives at `now`.
    pub fn receive(&mut self, frame: Frame<'_>, now: Timestamp, events: &mut EventQueue) -> (r:
        Result<(), Fail>)
        requires
            old(self).wf(),
            frame.wf(),
        ensures
            final(self).wf(),
            final(self).config() == old(self).config(),
            final(self)@ == receive_effect(
                old(self).config(),
                old(self)@,
                payload_of(frame@),
                now,
            ).state,
            final(events)@ == old(events)@ + receive_effect(
                old(self).config(),
                old(self)@,
                payload_of(frame@),
                now,
            ).emitted,
            r == receive_effect(old(self).config(), old(self)@, payload_of(frame@), now).result,
    {
        let ghost before = events@;
        assert(events@ =~= before + Seq::<EventView>::empty());
        let pdu = match ArpPdu::from_bytes(frame.payload()) {
            Ok(pdu) => pdu,
            Err(e) => {
                return Err(e);
            },
        };
        match pdu.op {
            ArpOp::Request => {
                if pdu.target_ip_addr != self.ipv4_addr {
                    if self.cache.get(pdu.sender_ip_addr, now).is_none() {
                        return Err(Fail::Ignored);
                    }
                    self.cache.insert(pdu.sender_ip_addr, pdu.sender_link_addr, now);
                } else {
                    self.cache.insert(pdu.sender_ip_addr, pdu.sender_link_addr, now);
                    let reply = ArpPdu {
                        op: ArpOp::Reply,
                        sender_link_addr: self.link_addr,
                        sender_ip_addr: self.ipv4_addr,
                        target_link_addr: pdu.sender_link_addr,
                        target_ip_addr: pdu.sender_ip_addr,
                    };
                    let event = Event::Transmit(reply.to_datagram());
                    events.push(event);
                    assert(events@ =~= before + seq![event@]);
                }
            },
            ArpOp::Reply => {
                self.cache.insert(pdu.sender_ip_addr, pdu.sender_link_addr, now);
                self.answer_all(pdu.sender_ip_addr, pdu.sender_link_addr);
            },
        }
        Ok(())
    }
}

} // verus!
