//! One ARP resolution under way, and the rule by which time moves it.
//!
//! A query is sent, then sent again each time its deadline passes, and
//! fails when the deadline passes after the last attempt. An answer ends it
//! at any time before that.
use crate::deferred::DeferredResult;
use crate::fail::Fail;
use crate::protocols::ethernet2::mac_address::MacAddress;
use crate::protocols::ipv4::address::Ipv4Addr;
use crate::time::{Duration, Timestamp};
use vstd::prelude::*;

verus! {

/// A resolution of one IPv4 address, pending or over.
#[derive(Clone, Copy, Debug)]
pub struct Query {
    /// What the handles of this query name it by.
    pub id: u64,
    /// The address that is asked for.
    pub target: Ipv4Addr,
    /// The number of requests sent after the first.
    pub attempt: u64,
    /// The instant at which the request that was sent last is given up.
    pub deadline: Timestamp,
    /// The number of handles that wait for the result.
    pub handles: u64,
    /// The result, once there is one.
    pub result: DeferredResult<MacAddress>,
}

impl Query {
    /// The query as it starts at `now`: its first request is sent and is
    /// given up after `timeout`.
    pub open spec fn fresh(id: u64, target: Ipv4Addr, now: Timestamp, timeout: Duration) -> Query {
        Query {
            id,
            target,
            attempt: 0,
            deadline: now.after(timeout),
            handles: 1,
            result: DeferredResult::Pending,
        }
    }

    pub open spec fn spec_is_pending(self) -> bool {
        self.result is Pending
    }

    /// Whether the deadline of a pending query has passed at `now`.
    pub open spec fn fires(self, now: Timestamp) -> bool {
        self.spec_is_pending() && now.has_reached(self.deadline)
    }

    /// Whether a request goes out for this query at `now`: the deadline
    /// has passed and an attempt is left.
    pub open spec fn retries(self, now: Timestamp, retry_count: u64) -> bool {
        self.fires(now) && self.attempt < retry_count
    }

    /// The query after the engine has advanced to `now`. A deadline that
    /// has passed starts the next attempt, with the deadline `now +
    /// timeout`, or fails the query with `Timeout` where none is left.
    pub open spec fn step(self, now: Timestamp, timeout: Duration, retry_count: u64) -> Query {
        if !self.fires(now) {
            self
        } else if self.attempt < retry_count {
            Query { attempt: (self.attempt + 1) as u64, deadline: now.after(timeout), ..self }
        } else {
            Query { result: DeferredResult::Failed(Fail::Timeout), ..self }
        }
    }

    /// The query after it was learned that `ip` is at `link_addr`: a
    /// pending query for `ip` completes.
    pub open spec fn answered(self, ip: Ipv4Addr, link_addr: MacAddress) -> Query {
        if self.target == ip {
            Query { result: self.result.completed_with(link_addr), ..self }
        } else {
            self
        }
    }

    /// The query with one handle more. A count that has reached the largest
    /// number that can be counted stays there.
    pub open spec fn with_handle(self) -> Query {
        Query {
            handles: if self.handles < u64::MAX {
                (self.handles + 1) as u64
            } else {
                self.handles
            },
            ..self
        }
    }

    /// Whether the handles of the query are still counted. A query whose
    /// count has reached the largest number is kept for good.
    pub open spec fn counts_handles(self) -> bool {
        self.handles < u64::MAX
    }

    /// The query after the engine has advanced to each instant of `polls`
    /// in turn.
    pub open spec fn run(
        self,
        polls: Seq<Timestamp>,
        timeout: Duration,
        retry_count: u64,
    ) -> Query
        decreases polls.len(),
    {
        if polls.len() == 0 {
            self
        } else {
            self.run(polls.drop_last(), timeout, retry_count).step(
                polls.last(),
                timeout,
                retry_count,
            )
        }
    }

    /// The number of requests that go out for the query while the engine
    /// advances to each instant of `polls` in turn.
    pub open spec fn requests_in(
        self,
        polls: Seq<Timestamp>,
        timeout: Duration,
        retry_count: u64,
    ) -> nat
        decreases polls.len(),
    {
        if polls.len() == 0 {
            0
        } else {
            let before = self.run(polls.drop_last(), timeout, retry_count);
            let sent: nat = if before.retries(polls.last(), retry_count) {
                1
            } else {
                0
            };
            self.requests_in(polls.drop_last(), timeout, retry_count) + sent
        }
    }

    pub fn new(id: u64, target: Ipv4Addr, now: Timestamp, timeout: Duration) -> (r: Query)
        ensures
            r == Query::fresh(id, target, now, timeout),
    {
        Query {
            id,
            target,
            attempt: 0,
            deadline: now.after(timeout),
            handles: 1,
            result: DeferredResult::Pending,
        }
    }

    #[verifier::when_used_as_spec(spec_is_pending)]
    pub fn is_pending(self) -> (r: bool)
        ensures
            r == self.spec_is_pending(),
    {
        self.result.is_pending()
    }

    /// Advances the query to `now`. The second part of the result says
    /// whether a request is to go out.
    pub fn advance(self, now: Timestamp, timeout: Duration, retry_count: u64) -> (r: (
        Query,
        bool,
    ))
        ensures
            r.0 == self.step(now, timeout, retry_count),
            r.1 == self.retries(now, retry_count),
    {
        if !self.result.is_pending() || !now.has_reached(self.deadline) {
            (self, false)
        } else if self.attempt < retry_count {
            (
                Query {
                    id: self.id,
                    target: self.target,
                    attempt: self.attempt + 1,
                    deadline: now.after(timeout),
                    handles: self.handles,
                    result: self.result,
                },
                true,
            )
        } else {
            (
                Query {
                    id: self.id,
                    target: self.target,
                    attempt: self.attempt,
                    deadline: self.deadline,
                    handles: self.handles,
                    result: DeferredResult::Failed(Fail::Timeout),
                },
                false,
            )
        }
    }

    /// Gives the query one handle more.
    pub fn add_handle(self) -> (r: Query)
        ensures
            r == self.with_handle(),
    {
        Query {
            id: self.id,
            target: self.target,
            attempt: self.attempt,
            deadline: self.deadline,
            handles: self.handles.saturating_add(1),
            result: self.result,
        }
    }

    /// Completes the query if it is pending and asks for `ip`.
    pub fn answer(self, ip: Ipv4Addr, link_addr: MacAddress) -> (r: Query)
        ensures
            r == self.answered(ip, link_addr),
    {
        if self.target == ip {
            let mut result = self.result;
            result.complete(link_addr);
            Query {
                id: self.id,
                target: self.target,
                attempt: self.attempt,
                deadline: self.deadline,
                handles: self.handles,
                result,
            }
        } else {
            self
        }
    }

    /// Time moves nothing but the attempt, the deadline and the result,
    /// never takes back a result, and never counts beyond the attempts
    /// that are allowed.
    pub proof fn lemma_step_keeps(self, now: Timestamp, timeout: Duration, retry_count: u64)
        ensures
            self.step(now, timeout, retry_count).id == self.id,
            self.step(now, timeout, retry_count).target == self.target,
            self.step(now, timeout, retry_count).handles == self.handles,
            !self.spec_is_pending() ==> self.step(now, timeout, retry_count) == self,
            self.step(now, timeout, retry_count).spec_is_pending() ==> self.spec_is_pending(),
            self.attempt <= retry_count ==> self.step(now, timeout, retry_count).attempt
                <= retry_count,
    {
    }

    /// Between one request and the next lies a whole timeout: after a
    /// request went out at `now`, none goes out at an instant before `now +
    /// timeout`, and the query is then as it was. The number of handles
    /// plays no part in it.
    pub proof fn law_quiet_until_deadline(
        self,
        now: Timestamp,
        later: Timestamp,
        timeout: Duration,
        retry_count: u64,
    )
        requires
            self.retries(now, retry_count),
            later.nanos < now.after(timeout).nanos,
        ensures
            !self.step(now, timeout, retry_count).fires(later),
            !self.step(now, timeout, retry_count).retries(later, retry_count),
            self.step(now, timeout, retry_count).step(later, timeout, retry_count) == self.step(
                now,
                timeout,
                retry_count,
            ),
            forall|handles: u64|
                (Query { handles, ..self }).retries(now, retry_count) == self.retries(
                    now,
                    retry_count,
                ),
    {
    }

    /// The same holds of the first request: a query that started at `now`
    /// sends nothing more at an instant before `now + timeout`.
    pub proof fn law_fresh_is_quiet(
        id: u64,
        target: Ipv4Addr,
        now: Timestamp,
        later: Timestamp,
        timeout: Duration,
        retry_count: u64,
    )
        requires
            later.nanos < now.after(timeout).nanos,
        ensures
            !Query::fresh(id, target, now, timeout).retries(later, retry_count),
            Query::fresh(id, target, now, timeout).step(later, timeout, retry_count)
                == Query::fresh(id, target, now, timeout),
    {
    }

    /// Advancing twice to the same instant is advancing once, where the
    /// timeout is not zero and the clock has not run out.
    pub proof fn law_step_idempotent(self, now: Timestamp, timeout: Duration, retry_count: u64)
        requires
            timeout.nanos > 0,
            now.nanos < u64::MAX,
        ensures
            self.step(now, timeout, retry_count).step(now, timeout, retry_count) == self.step(
                now,
                timeout,
                retry_count,
            ),
            !self.step(now, timeout, retry_count).retries(now, retry_count),
    {
    }

    /// A query that nobody answers sends one request and then as many as
    /// there are retries, no more, and fails with `Timeout` only after the
    /// last of them: however the engine is polled, the requests that went
    /// out after the first are as many as the attempts counted, never more
    /// than `retry_count`, and exactly `retry_count` once the query has
    /// failed.
    pub proof fn law_requests_until_timeout(
        self,
        polls: Seq<Timestamp>,
        timeout: Duration,
        retry_count: u64,
    )
        requires
            self.spec_is_pending(),
            self.attempt == 0,
        ensures
            ({
                let end = self.run(polls, timeout, retry_count);
                let sent = self.requests_in(polls, timeout, retry_count);
                &&& sent == end.attempt
                &&& 1 + sent <= 1 + retry_count
                &&& end.result == DeferredResult::<MacAddress>::Pending || end.result
                    == DeferredResult::<MacAddress>::Failed(Fail::Timeout)
                &&& end.result == DeferredResult::<MacAddress>::Failed(Fail::Timeout) ==> 1
                    + sent == 1 + retry_count
                &&& end.id == self.id && end.target == self.target
            }),
        decreases polls.len(),
    {
        if polls.len() > 0 {
            self.law_requests_until_timeout(polls.drop_last(), timeout, retry_count);
        }
    }

    /// An answer that comes while the query is pending, up to the very
    /// instant at which it would fail, completes it with the link address;
    /// no request goes out after that and every later poll answers the
    /// same.
    pub proof fn law_answer_resolves(
        self,
        link_addr: MacAddress,
        polls: Seq<Timestamp>,
        timeout: Duration,
        retry_count: u64,
    )
        requires
            self.spec_is_pending(),
        ensures
            ({
                let done = self.answered(self.target, link_addr);
                &&& done.result == DeferredResult::Completed(link_addr)
                &&& done.result.outcome() == Some(Ok::<MacAddress, Fail>(link_addr))
                &&& done.run(polls, timeout, retry_count) == done
                &&& done.requests_in(polls, timeout, retry_count) == 0
            }),
        decreases polls.len(),
    {
        if polls.len() > 0 {
            self.law_answer_resolves(link_addr, polls.drop_last(), timeout, retry_count);
        }
    }

    /// A query is pending until a poll reaches the deadline of its last
    /// attempt: a poll that comes before the deadline changes nothing, and
    /// one that reaches an earlier deadline leaves the query pending.
    pub proof fn law_pending_until_last_deadline(
        self,
        now: Timestamp,
        timeout: Duration,
        retry_count: u64,
    )
        requires
            self.spec_is_pending(),
            now.nanos < self.deadline.nanos || self.attempt < retry_count,
        ensures
            self.step(now, timeout, retry_count).spec_is_pending(),
            now.nanos < self.deadline.nanos ==> self.step(now, timeout, retry_count) == self,
    {
    }
}

} // verus!
