//! A deferred result: the state of a computation that completes once.
//!
//! It is no task and runs nothing. The engine writes it and whoever waits
//! reads it.
use crate::fail::Fail;
use vstd::prelude::*;

verus! {

/// The state of a computation that is still under way, has completed with
/// a value, or has failed.
#[derive(Clone, Copy, Debug)]
pub enum DeferredResult<T> {
    Pending,
    Completed(T),
    Failed(Fail),
}

impl<T: Copy> DeferredResult<T> {
    pub open spec fn spec_is_pending(&self) -> bool {
        *self is Pending
    }

    /// What a poll answers: nothing while pending, and then the value or
    /// the failure.
    pub open spec fn outcome(&self) -> Option<Result<T, Fail>> {
        match *self {
            DeferredResult::Pending => None,
            DeferredResult::Completed(value) => Some(Ok(value)),
            DeferredResult::Failed(kind) => Some(Err(kind)),
        }
    }

    /// The state after an attempt to complete with `value`: only a pending
    /// computation completes.
    pub open spec fn completed_with(self, value: T) -> DeferredResult<T> {
        if self is Pending {
            DeferredResult::Completed(value)
        } else {
            self
        }
    }

    /// The state after an attempt to fail with `kind`: only a pending
    /// computation fails.
    pub open spec fn failed_with(self, kind: Fail) -> DeferredResult<T> {
        if self is Pending {
            DeferredResult::Failed(kind)
        } else {
            self
        }
    }

    pub fn new() -> (r: DeferredResult<T>)
        ensures
            r is Pending,
    {
        DeferredResult::Pending
    }

    #[verifier::when_used_as_spec(spec_is_pending)]
    pub fn is_pending(&self) -> (r: bool)
        ensures
            r == self.spec_is_pending(),
    {
        match self {
            DeferredResult::Pending => true,
            _ => false,
        }
    }

    /// Reads the state. Nothing changes.
    pub fn poll(&self) -> (r: Option<Result<T, Fail>>)
        ensures
            r == self.outcome(),
    {
        match self {
            DeferredResult::Pending => None,
            DeferredResult::Completed(value) => Some(Ok(*value)),
            DeferredResult::Failed(kind) => Some(Err(*kind)),
        }
    }

    /// Completes a pending computation. One that is over stays as it is.
    pub fn complete(&mut self, value: T)
        ensures
            *final(self) == old(self).completed_with(value),
    {
        if self.is_pending() {
            *self = DeferredResult::Completed(value);
        }
    }

    /// Fails a pending computation. One that is over stays as it is.
    pub fn fail(&mut self, kind: Fail)
        ensures
            *final(self) == old(self).failed_with(kind),
    {
        if self.is_pending() {
            *self = DeferredResult::Failed(kind);
        }
    }

    /// A computation is over once: whatever is attempted on one that is no
    /// longer pending, every later poll answers what the first one did.
    pub proof fn law_single_shot(self, value: T, kind: Fail)
        requires
            !(self is Pending),
        ensures
            self.completed_with(value) == self,
            self.failed_with(kind) == self,
            self.completed_with(value).outcome() == self.outcome(),
            self.failed_with(kind).outcome() == self.outcome(),
            self.outcome() is Some,
    {
    }
}

} // verus!
