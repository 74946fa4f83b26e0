//! The ARP cache: what the node has learned of the link addresses of its
//! neighbours, each entry with the instant at which it expires.
//!
//! Nothing is evicted behind the caller's back. An entry past its expiry
//! stays where it is and is no longer found.
use crate::protocols::ethernet2::mac_address::MacAddress;
use crate::protocols::ipv4::address::Ipv4Addr;
use crate::time::{Duration, Timestamp};
use vstd::prelude::*;

verus! {

/// What the cache holds for one IPv4 address.
#[derive(Clone, Copy, Debug, PartialEq, Eq, Hash, Structural)]
pub struct CacheEntry {
    pub link_addr: MacAddress,
    pub expiry: Timestamp,
}

impl CacheEntry {
    /// An entry is live up to and including the instant of its expiry.
    pub open spec fn is_live(self, now: Timestamp) -> bool {
        now.nanos <= self.expiry.nanos
    }
}

/// What a lookup of `ip` at `now` answers in a cache that holds `m`: the
/// link address of the entry for `ip`, if there is one and it is live.
pub open spec fn lookup(m: Map<Ipv4Addr, CacheEntry>, ip: Ipv4Addr, now: Timestamp) -> Option<
    MacAddress,
> {
    if m.dom().contains(ip) && m[ip].is_live(now) {
        Some(m[ip].link_addr)
    } else {
        None
    }
}

/// The live entries of `m` at `now`, in the order in which `order` names
/// their addresses.
pub open spec fn snapshot_of(
    order: Seq<Ipv4Addr>,
    m: Map<Ipv4Addr, CacheEntry>,
    now: Timestamp,
) -> Seq<(Ipv4Addr, MacAddress)>
    decreases order.len(),
{
    if order.len() == 0 {
        Seq::empty()
    } else {
        let rest = snapshot_of(order.drop_last(), m, now);
        let ip = order.last();
        if lookup(m, ip, now) is Some {
            rest.push((ip, m[ip].link_addr))
        } else {
            rest
        }
    }
}

/// The addresses of `order` whose entries in `m` are live at `now`, in
/// their order.
pub open spec fn live_order(
    order: Seq<Ipv4Addr>,
    m: Map<Ipv4Addr, CacheEntry>,
    now: Timestamp,
) -> Seq<Ipv4Addr>
    decreases order.len(),
{
    if order.len() == 0 {
        Seq::empty()
    } else {
        let rest = live_order(order.drop_last(), m, now);
        if lookup(m, order.last(), now) is Some {
            rest.push(order.last())
        } else {
            rest
        }
    }
}

/// The entries of `m` that are live at `now`.
pub open spec fn purged(m: Map<Ipv4Addr, CacheEntry>, now: Timestamp) -> Map<
    Ipv4Addr,
    CacheEntry,
> {
    m.restrict(Set::new(|ip: Ipv4Addr| m[ip].is_live(now)))
}

/// The link address that the last pair for `ip` in `s` holds.
pub open spec fn find(s: Seq<(Ipv4Addr, MacAddress)>, ip: Ipv4Addr) -> Option<MacAddress>
    decreases s.len(),
{
    if s.len() == 0 {
        None
    } else if s.last().0 == ip {
        Some(s.last().1)
    } else {
        find(s.drop_last(), ip)
    }
}

/// The map that a sequence of slots stands for: a later slot for an
/// address stands before an earlier one.
spec fn to_map(s: Seq<(Ipv4Addr, CacheEntry)>) -> Map<Ipv4Addr, CacheEntry>
    decreases s.len(),
{
    if s.len() == 0 {
        Map::empty()
    } else {
        to_map(s.drop_last()).insert(s.last().0, s.last().1)
    }
}

spec fn keys_of(s: Seq<(Ipv4Addr, CacheEntry)>) -> Seq<Ipv4Addr> {
    Seq::new(s.len(), |i: int| s[i].0)
}

spec fn distinct_keys(s: Seq<(Ipv4Addr, CacheEntry)>) -> bool {
    forall|i: int, j: int| 0 <= i < j < s.len() ==> s[i].0 != s[j].0
}

proof fn lemma_to_map_domain(s: Seq<(Ipv4Addr, CacheEntry)>, ip: Ipv4Addr)
    ensures
        to_map(s).dom().contains(ip) <==> exists|i: int| 0 <= i < s.len() && s[i].0 == ip,
    decreases s.len(),
{
    if s.len() > 0 {
        let rest = s.drop_last();
        lemma_to_map_domain(rest, ip);
        if to_map(s).dom().contains(ip) {
            if s.last().0 == ip {
                assert(s[s.len() - 1].0 == ip);
            } else {
                let i = choose|i: int| 0 <= i < rest.len() && rest[i].0 == ip;
                assert(s[i].0 == ip);
            }
        }
        if exists|i: int| 0 <= i < s.len() && s[i].0 == ip {
            let i = choose|i: int| 0 <= i < s.len() && s[i].0 == ip;
            if i < s.len() - 1 {
                assert(rest[i].0 == ip);
            }
        }
    }
}

proof fn lemma_to_map_index(s: Seq<(Ipv4Addr, CacheEntry)>, i: int)
    requires
        distinct_keys(s),
        0 <= i < s.len(),
    ensures
        to_map(s).dom().contains(s[i].0),
        to_map(s)[s[i].0] == s[i].1,
    decreases s.len(),
{
    let rest = s.drop_last();
    if i < s.len() - 1 {
        assert(distinct_keys(rest)) by {
            assert forall|a: int, b: int| 0 <= a < b < rest.len() implies rest[a].0
                != rest[b].0 by {
                assert(s[a].0 != s[b].0);
            }
        }
        lemma_to_map_index(rest, i);
        assert(s[i].0 != s[s.len() - 1].0);
    }
}

proof fn lemma_to_map_update(s: Seq<(Ipv4Addr, CacheEntry)>, i: int, entry: CacheEntry)
    requires
        distinct_keys(s),
        0 <= i < s.len(),
    ensures
        to_map(s.update(i, (s[i].0, entry))) == to_map(s).insert(s[i].0, entry),
        distinct_keys(s.update(i, (s[i].0, entry))),
        keys_of(s.update(i, (s[i].0, entry))) == keys_of(s),
    decreases s.len(),
{
    let t = s.update(i, (s[i].0, entry));
    let rest = s.drop_last();
    assert(keys_of(t) =~= keys_of(s));
    if i == s.len() - 1 {
        assert(t.drop_last() =~= rest);
        assert(to_map(t) =~= to_map(s).insert(s[i].0, entry));
    } else {
        assert(distinct_keys(rest)) by {
            assert forall|a: int, b: int| 0 <= a < b < rest.len() implies rest[a].0
                != rest[b].0 by {
                assert(s[a].0 != s[b].0);
            }
        }
        lemma_to_map_update(rest, i, entry);
        assert(t.drop_last() =~= rest.update(i, (rest[i].0, entry)));
        assert(s[i].0 != s[s.len() - 1].0);
        assert(to_map(t) =~= to_map(s).insert(s[i].0, entry));
    }
}

/// In a sequence without repetition, the snapshot holds for an address
/// what a lookup answers, and nothing for an address that is not named.
proof fn lemma_snapshot_find(
    order: Seq<Ipv4Addr>,
    m: Map<Ipv4Addr, CacheEntry>,
    now: Timestamp,
    ip: Ipv4Addr,
)
    requires
        order.no_duplicates(),
    ensures
        find(snapshot_of(order, m, now), ip) == if order.contains(ip) {
            lookup(m, ip, now)
        } else {
            None
        },
    decreases order.len(),
{
    if order.len() > 0 {
        let rest = order.drop_last();
        lemma_snapshot_find(rest, m, now, ip);
        let last = order.last();
        let rest_snap = snapshot_of(rest, m, now);
        if last == ip {
            assert(order[order.len() - 1] == ip);
            if rest.contains(ip) {
                let j = choose|j: int| 0 <= j < rest.len() && rest[j] == ip;
                assert(order[j] == order[order.len() - 1]);
            }
            if lookup(m, ip, now) is Some {
                assert(rest_snap.push((ip, m[ip].link_addr)).drop_last() =~= rest_snap);
            }
        } else {
            if order.contains(ip) {
                let j = choose|j: int| 0 <= j < order.len() && order[j] == ip;
                assert(rest[j] == ip);
            }
            if rest.contains(ip) {
                let j = choose|j: int| 0 <= j < rest.len() && rest[j] == ip;
                assert(order[j] == ip);
            }
            if lookup(m, last, now) is Some {
                assert(rest_snap.push((last, m[last].link_addr)).drop_last() =~= rest_snap);
            }
        }
    }
}

/// The link addresses that a node has learned, by IPv4 address.
pub struct ArpCache {
    ttl: Duration,
    slots: Vec<(Ipv4Addr, CacheEntry)>,
}

impl ArpCache {
    /// The entries of the cache, the expired ones too.
    pub closed spec fn view(&self) -> Map<Ipv4Addr, CacheEntry> {
        to_map(self.slots@)
    }

    /// The addresses that the cache has an entry for, in the order in
    /// which they first came.
    pub closed spec fn order(&self) -> Seq<Ipv4Addr> {
        keys_of(self.slots@)
    }

    /// The life that an inserted entry gets.
    pub closed spec fn ttl(&self) -> Duration {
        self.ttl
    }

    /// No address has two entries.
    pub closed spec fn wf(&self) -> bool {
        distinct_keys(self.slots@)
    }

    /// The order names the addresses of the entries, each once.
    pub proof fn lemma_order(&self)
        requires
            self.wf(),
        ensures
            self.order().no_duplicates(),
            forall|ip: Ipv4Addr| self.order().contains(ip) <==> self@.dom().contains(ip),
    {
        assert forall|ip: Ipv4Addr| self.order().contains(ip) <==> self@.dom().contains(
            ip,
        ) by {
            lemma_to_map_domain(self.slots@, ip);
            if self.order().contains(ip) {
                let i = choose|i: int| 0 <= i < self.order().len() && self.order()[i] == ip;
                assert(self.slots@[i].0 == ip);
            }
            if self@.dom().contains(ip) {
                let i = choose|i: int| 0 <= i < self.slots@.len() && self.slots@[i].0 == ip;
                assert(self.order()[i] == ip);
            }
        }
    }

    /// An empty cache whose entries will live for `ttl`.
    pub fn new(ttl: Duration) -> (r: ArpCache)
        ensures
            r.wf(),
            r@ == Map::<Ipv4Addr, CacheEntry>::empty(),
            r.order() == Seq::<Ipv4Addr>::empty(),
            r.ttl() == ttl,
    {
        let r = ArpCache { ttl, slots: Vec::new() };
        assert(r.order() =~= Seq::<Ipv4Addr>::empty());
        r
    }

    fn position(&self, ip: Ipv4Addr) -> (r: Option<usize>)
        requires
            self.wf(),
        ensures
            match r {
                Some(i) => {
                    &&& i < self.slots@.len()
                    &&& self.slots@[i as int].0 == ip
                    &&& self@.dom().contains(ip)
                    &&& self@[ip] == self.slots@[i as int].1
                },
                None => {
                    &&& !self@.dom().contains(ip)
                    &&& forall|i: int| 0 <= i < self.slots@.len() ==> self.slots@[i].0 != ip
                },
            },
    {
        let mut i: usize = 0;
        while i < self.slots.len()
            invariant
                self.wf(),
                i <= self.slots@.len(),
                forall|j: int| 0 <= j < i ==> self.slots@[j].0 != ip,
            decreases self.slots@.len() - i,
        {
            if self.slots[i].0 == ip {
                proof {
                    lemma_to_map_index(self.slots@, i as int);
                }
                return Some(i);
            }
            i = i + 1;
        }
        proof {
            lemma_to_map_domain(self.slots@, ip);
        }
        None
    }

    /// Stores `link_addr` for `ip` with the expiry `now + ttl`, in place of
    /// what was stored for `ip` before.
    pub fn insert(&mut self, ip: Ipv4Addr, link_addr: MacAddress, now: Timestamp)
        requires
            old(self).wf(),
        ensures
            final(self).wf(),
            final(self).ttl() == old(self).ttl(),
            final(self)@ == old(self)@.insert(
                ip,
                CacheEntry { link_addr, expiry: now.after(old(self).ttl()) },
            ),
            final(self).order() == if old(self)@.dom().contains(ip) {
                old(self).order()
            } else {
                old(self).order().push(ip)
            },
    {
        let entry = CacheEntry { link_addr, expiry: now.after(self.ttl) };
        match self.position(ip) {
            Some(i) => {
                proof {
                    lemma_to_map_update(self.slots@, i as int, entry);
                }
                self.slots[i] = (ip, entry);
            },
            None => {
                self.slots.push((ip, entry));
                proof {
                    assert(self.slots@.drop_last() =~= old(self).slots@);
                    assert(self.order() =~= old(self).order().push(ip));
                }
            },
        }
    }

    /// The link address for `ip`, if the cache has an entry for it that
    /// is live at `now`. An entry whose expiry lies before `now` is never
    /// the answer.
    pub fn get(&self, ip: Ipv4Addr, now: Timestamp) -> (r: Option<MacAddress>)
        requires
            self.wf(),
        ensures
            r == lookup(self@, ip, now),
            r is Some ==> self@.dom().contains(ip) && self@[ip].expiry.nanos >= now.nanos,
    {
        match self.position(ip) {
            Some(i) => {
                let entry = self.slots[i].1;
                if now.nanos <= entry.expiry.nanos {
                    Some(entry.link_addr)
                } else {
                    None
                }
            },
            None => None,
        }
    }

    /// The number of entries, the expired ones too.
    pub fn len(&self) -> (r: usize)
        ensures
            r == self.order().len(),
    {
        self.slots.len()
    }

    /// A copy of the entries that are live at `now`, in the order in which
    /// their addresses first came.
    pub fn export(&self, now: Timestamp) -> (r: ArpSnapshot)
        requires
            self.wf(),
        ensures
            r@ == snapshot_of(self.order(), self@, now),
    {
        let mut entries: Vec<(Ipv4Addr, MacAddress)> = Vec::new();
        let mut i: usize = 0;
        assert(self.order().take(0) =~= Seq::<Ipv4Addr>::empty());
        while i < self.slots.len()
            invariant
                self.wf(),
                i <= self.slots@.len(),
                entries@ == snapshot_of(self.order().take(i as int), self@, now),
            decreases self.slots@.len() - i,
        {
            let (ip, entry) = self.slots[i];
            proof {
                lemma_to_map_index(self.slots@, i as int);
                assert(self.order().take(i + 1).drop_last() =~= self.order().take(i as int));
                assert(self.order().take(i + 1).last() == ip);
            }
            if now.nanos <= entry.expiry.nanos {
                entries.push((ip, entry.link_addr));
            }
            i = i + 1;
        }
        assert(self.order().take(i as int) =~= self.order());
        ArpSnapshot { entries }
    }

    /// Drops the entries that have expired at `now`. The others stay as
    /// they are and in their order.
    pub fn purge(&mut self, now: Timestamp)
        requires
            old(self).wf(),
        ensures
            final(self).wf(),
            final(self).ttl() == old(self).ttl(),
            final(self)@ == purged(old(self)@, now),
            final(self).order() == live_order(old(self).order(), old(self)@, now),
    {
        let mut kept: Vec<(Ipv4Addr, CacheEntry)> = Vec::new();
        let mut i: usize = 0;
        assert(keys_of(self.slots@).take(0) =~= Seq::<Ipv4Addr>::empty());
        assert(keys_of(kept@) =~= Seq::<Ipv4Addr>::empty());
        while i < self.slots.len()
            invariant
                self.slots@ == old(self).slots@,
                distinct_keys(self.slots@),
                keys_of(kept@) == live_order(
                    keys_of(self.slots@).take(i as int),
                    to_map(self.slots@),
                    now,
                ),
                i <= self.slots@.len(),
                distinct_keys(kept@),
                forall|k: int|
                    0 <= k < kept@.len() ==> exists|j: int|
                        0 <= j < i && self.slots@[j] == #[trigger] kept@[k],
                forall|k: int| 0 <= k < kept@.len() ==> (#[trigger] kept@[k]).1.is_live(now),
                forall|j: int|
                    0 <= j < i && (#[trigger] self.slots@[j]).1.is_live(now) ==> exists|k: int|
                        0 <= k < kept@.len() && kept@[k] == self.slots@[j],
            decreases self.slots@.len() - i,
        {
            let slot = self.slots[i];
            proof {
                lemma_to_map_index(self.slots@, i as int);
                assert(keys_of(self.slots@).take(i + 1).drop_last() =~= keys_of(
                    self.slots@,
                ).take(i as int));
                assert(keys_of(self.slots@).take(i + 1).last() == slot.0);
            }
            if now.nanos <= slot.1.expiry.nanos {
                let ghost before = kept@;
                kept.push(slot);
                proof {
                    assert(keys_of(kept@) =~= keys_of(before).push(slot.0));
                    assert forall|a: int, b: int| 0 <= a < b < kept@.len() implies kept@[a].0
                        != kept@[b].0 by {
                        if b == kept@.len() - 1 {
                            let j = choose|j: int| 0 <= j < i && self.slots@[j] == before[a];
                            assert(self.slots@[j].0 != self.slots@[i as int].0);
                        } else {
                            assert(before[a].0 != before[b].0);
                        }
                    }
                    assert forall|k: int| 0 <= k < kept@.len() implies exists|j: int|
                        0 <= j < i + 1 && self.slots@[j] == #[trigger] kept@[k] by {
                        if k == kept@.len() - 1 {
                            assert(self.slots@[i as int] == kept@[k]);
                        } else {
                            let j = choose|j: int| 0 <= j < i && self.slots@[j] == before[k];
                            assert(self.slots@[j] == kept@[k]);
                        }
                    }
                    assert forall|j: int|
                        0 <= j < i + 1 && (#[trigger] self.slots@[j]).1.is_live(
                            now,
                        ) implies exists|k: int|
                        0 <= k < kept@.len() && kept@[k] == self.slots@[j] by {
                        if j == i {
                            assert(kept@[kept@.len() - 1] == self.slots@[j]);
                        } else {
                            let k = choose|k: int|
                                0 <= k < before.len() && before[k] == self.slots@[j];
                            assert(kept@[k] == self.slots@[j]);
                        }
                    }
                }
            }
            i = i + 1;
        }
        proof {
            assert forall|ip: Ipv4Addr|
                to_map(kept@).dom().contains(ip) <==> old(self)@.dom().contains(ip) && old(
                    self,
                )@[ip].is_live(now) by {
                lemma_to_map_domain(kept@, ip);
                lemma_to_map_domain(self.slots@, ip);
                if to_map(kept@).dom().contains(ip) {
                    let k = choose|k: int| 0 <= k < kept@.len() && kept@[k].0 == ip;
                    let j = choose|j: int| 0 <= j < i && self.slots@[j] == kept@[k];
                    lemma_to_map_index(self.slots@, j);
                }
                if old(self)@.dom().contains(ip) && old(self)@[ip].is_live(now) {
                    let j = choose|j: int| 0 <= j < self.slots@.len() && self.slots@[j].0 == ip;
                    lemma_to_map_index(self.slots@, j);
                    let k = choose|k: int| 0 <= k < kept@.len() && kept@[k] == self.slots@[j];
                    assert(kept@[k].0 == ip);
                }
            }
            assert forall|ip: Ipv4Addr| to_map(kept@).dom().contains(ip) implies to_map(
                kept@,
            )[ip] == old(self)@[ip] by {
                lemma_to_map_domain(kept@, ip);
                let k = choose|k: int| 0 <= k < kept@.len() && kept@[k].0 == ip;
                let j = choose|j: int| 0 <= j < i && self.slots@[j] == kept@[k];
                lemma_to_map_index(self.slots@, j);
                lemma_to_map_index(kept@, k);
            }
            assert(to_map(kept@) =~= purged(old(self)@, now));
            assert(keys_of(self.slots@).take(i as int) =~= keys_of(self.slots@));
        }
        self.slots = kept;
    }

    /// A snapshot holds for every address what a lookup at the same
    /// instant answers.
    pub proof fn law_snapshot_agrees(&self, ip: Ipv4Addr, now: Timestamp)
        requires
            self.wf(),
        ensures
            find(snapshot_of(self.order(), self@, now), ip) == lookup(self@, ip, now),
    {
        self.lemma_order();
        lemma_snapshot_find(self.order(), self@, now, ip);
    }
}

/// Purging changes no answer: what a lookup at `now` or later finds in the
/// purged entries is what it finds in all of them.
pub proof fn law_purge_keeps_answers(
    m: Map<Ipv4Addr, CacheEntry>,
    now: Timestamp,
    ip: Ipv4Addr,
    later: Timestamp,
)
    requires
        now.nanos <= later.nanos,
    ensures
        lookup(purged(m, now), ip, later) == lookup(m, ip, later),
{
}

/// Purging changes no snapshot either: at `now` or later, the snapshot of
/// what is left is the snapshot of all.
pub proof fn law_purge_keeps_snapshot(
    order: Seq<Ipv4Addr>,
    m: Map<Ipv4Addr, CacheEntry>,
    now: Timestamp,
    later: Timestamp,
)
    requires
        now.nanos <= later.nanos,
    ensures
        snapshot_of(live_order(order, m, now), purged(m, now), later) == snapshot_of(
            order,
            m,
            later,
        ),
    decreases order.len(),
{
    if order.len() > 0 {
        let rest = order.drop_last();
        let last = order.last();
        law_purge_keeps_snapshot(rest, m, now, later);
        law_purge_keeps_answers(m, now, last, later);
        if lookup(m, last, now) is Some {
            let kept = live_order(rest, m, now);
            assert(kept.push(last).drop_last() =~= kept);
            assert(kept.push(last).last() == last);
        }
    }
}

/// The entries of a cache that held `m` after the insertions `ops`, each
/// an address, a link address and the instant of the insertion, under the
/// life `ttl`.
pub open spec fn after_inserts(
    m: Map<Ipv4Addr, CacheEntry>,
    ops: Seq<(Ipv4Addr, MacAddress, Timestamp)>,
    ttl: Duration,
) -> Map<Ipv4Addr, CacheEntry>
    decreases ops.len(),
{
    if ops.len() == 0 {
        m
    } else {
        after_inserts(m, ops.drop_last(), ttl).insert(
            ops.last().0,
            CacheEntry { link_addr: ops.last().1, expiry: ops.last().2.after(ttl) },
        )
    }
}

/// Whether the insertion `k` of `ops` is the latest for `ip`.
pub open spec fn is_latest_for(
    ops: Seq<(Ipv4Addr, MacAddress, Timestamp)>,
    k: int,
    ip: Ipv4Addr,
) -> bool {
    &&& 0 <= k < ops.len()
    &&& ops[k].0 == ip
    &&& forall|j: int| k < j < ops.len() ==> (#[trigger] ops[j]).0 != ip
}

/// The cache never answers with an entry that has expired, nor with one
/// that was overwritten: whatever was inserted and when, an answer for
/// `ip` at `now` is the link address of the latest insertion for `ip`, and
/// `now` has not passed the instant of that insertion plus the life of an
/// entry. Where the latest insertion for `ip` is that old, or there is
/// none, there is no answer.
pub proof fn law_answers_are_live_and_latest(
    ops: Seq<(Ipv4Addr, MacAddress, Timestamp)>,
    ttl: Duration,
    ip: Ipv4Addr,
    now: Timestamp,
)
    ensures
        ({
            let m = after_inserts(Map::empty(), ops, ttl);
            &&& forall|link_addr: MacAddress|
                lookup(m, ip, now) == Some(link_addr) ==> exists|k: int|
                    #[trigger] is_latest_for(ops, k, ip) && ops[k].1 == link_addr && now.nanos
                        <= ops[k].2.after(ttl).nanos
            &&& forall|k: int|
                #[trigger] is_latest_for(ops, k, ip) ==> lookup(m, ip, now) == if now.nanos
                    <= ops[k].2.after(ttl).nanos {
                    Some(ops[k].1)
                } else {
                    None
                }
            &&& (forall|k: int| 0 <= k < ops.len() ==> (#[trigger] ops[k]).0 != ip) ==> lookup(
                m,
                ip,
                now,
            ) is None
        }),
    decreases ops.len(),
{
    if ops.len() > 0 {
        let rest = ops.drop_last();
        let last = ops.last();
        law_answers_are_live_and_latest(rest, ttl, ip, now);
        let m = after_inserts(Map::empty(), ops, ttl);
        let m_rest = after_inserts(Map::empty(), rest, ttl);
        if last.0 == ip {
            assert(is_latest_for(ops, ops.len() - 1, ip));
            assert forall|k: int| #[trigger] is_latest_for(ops, k, ip) implies k == ops.len()
                - 1 by {
                if k < ops.len() - 1 {
                    assert(ops[ops.len() - 1].0 != ip);
                }
            }
        } else {
            assert(lookup(m, ip, now) == lookup(m_rest, ip, now));
            assert forall|k: int| #[trigger] is_latest_for(ops, k, ip) implies is_latest_for(
                rest,
                k,
                ip,
            ) by {
                assert(k != ops.len() - 1);
                assert forall|j: int| k < j < rest.len() implies (#[trigger] rest[j]).0
                    != ip by {
                    assert(ops[j].0 != ip);
                }
            }
            assert forall|k: int| #[trigger] is_latest_for(rest, k, ip) implies is_latest_for(
                ops,
                k,
                ip,
            ) by {
                assert(ops[k] == rest[k]);
                assert forall|j: int| k < j < ops.len() implies (#[trigger] ops[j]).0
                    != ip by {
                    if j < rest.len() {
                        assert(rest[j].0 != ip);
                    }
                }
            }
            assert forall|link_addr: MacAddress|
                lookup(m, ip, now) == Some(link_addr) implies exists|k: int|
                #[trigger] is_latest_for(ops, k, ip) && ops[k].1 == link_addr && now.nanos
                    <= ops[k].2.after(ttl).nanos by {
                let k = choose|k: int|
                    #[trigger] is_latest_for(rest, k, ip) && rest[k].1 == link_addr
                        && now.nanos <= rest[k].2.after(ttl).nanos;
                assert(is_latest_for(ops, k, ip));
                assert(ops[k] == rest[k]);
            }
            if forall|k: int| 0 <= k < ops.len() ==> (#[trigger] ops[k]).0 != ip {
                assert forall|k: int| 0 <= k < rest.len() implies (#[trigger] rest[k]).0
                    != ip by {
                    assert(ops[k].0 != ip);
                }
            }
        }
    }
}

/// An entry that was inserted is found until it expires, and not after:
/// a lookup at `later` in a cache that holds for `ip` what an insertion at
/// `now` stores answers the link address exactly while `later` has not
/// passed `now + ttl`.
pub proof fn law_insert_then_get(
    m: Map<Ipv4Addr, CacheEntry>,
    ip: Ipv4Addr,
    link_addr: MacAddress,
    now: Timestamp,
    ttl: Duration,
    later: Timestamp,
)
    ensures
        lookup(m.insert(ip, CacheEntry { link_addr, expiry: now.after(ttl) }), ip, later) == if later.nanos
            <= now.after(ttl).nanos {
            Some(link_addr)
        } else {
            None
        },
        forall|other: Ipv4Addr|
            other != ip ==> lookup(
                m.insert(ip, CacheEntry { link_addr, expiry: now.after(ttl) }),
                other,
                later,
            ) == lookup(m, other, later),
{
}

/// A copy of the live entries of a cache at one instant.
#[derive(Clone, Debug)]
pub struct ArpSnapshot {
    entries: Vec<(Ipv4Addr, MacAddress)>,
}

impl View for ArpSnapshot {
    type V = Seq<(Ipv4Addr, MacAddress)>;

    /// The pairs of the snapshot in their order.
    closed spec fn view(&self) -> Seq<(Ipv4Addr, MacAddress)> {
        self.entries@
    }
}

impl ArpSnapshot {
    pub fn len(&self) -> (r: usize)
        ensures
            r == self@.len(),
    {
        self.entries.len()
    }

    pub fn is_empty(&self) -> (r: bool)
        ensures
            r == (self@.len() == 0),
    {
        self.entries.len() == 0
    }

    /// The pair at `index`.
    pub fn entry(&self, index: usize) -> (r: (Ipv4Addr, MacAddress))
        requires
            index < self@.len(),
        ensures
            r == self@[index as int],
    {
        self.entries[index]
    }

    /// The link address that the snapshot holds for `ip`.
    pub fn get(&self, ip: &Ipv4Addr) -> (r: Option<&MacAddress>)
        ensures
            match r {
                Some(link_addr) => find(self@, *ip) == Some(*link_addr),
                None => find(self@, *ip) is None,
            },
    {
        let mut i: usize = self.entries.len();
        assert(self@.take(i as int) =~= self@);
        while i > 0
            invariant
                i <= self.entries@.len(),
                find(self@, *ip) == find(self@.take(i as int), *ip),
            decreases i,
        {
            i = i - 1;
            proof {
                assert(self@.take(i + 1).drop_last() =~= self@.take(i as int));
            }
            if self.entries[i].0 == *ip {
                return Some(&self.entries[i].1);
            }
        }
        None
    }
}

} // verus!
