use vstd::prelude::*;

verus! {

/// The ways in which an operation of the engine can fail.
///
/// Every failure is returned as a value and leaves the engine usable.
#[derive(Clone, Copy, Debug, PartialEq, Eq, Hash, Structural)]
pub enum Fail {
    /// The bytes do not conform to the wire format.
    Malformed,
    /// The bytes conform, but use a feature that is not implemented.
    Unsupported,
    /// The input was understood, and the policy is to do nothing with it.
    Ignored,
    /// A bounded exchange ran out of attempts.
    Timeout,
    /// A size limit was reached.
    ResourceExhausted,
}

} // verus!
