//! What one delivery attempt came to.

use vstd::prelude::*;

verus! {

/// Why a destination can never be delivered to again.
#[derive(Clone, Copy, Debug, PartialEq, Eq, Structural)]
pub enum FatalReason {
    MissingAccess,
    MissingPermissions,
    UnknownDestination,
}

/// Why the remote service turned an attempt down without the destination
/// being lost for good.
#[derive(Clone, Copy, Debug, PartialEq, Eq, Structural)]
pub enum RejectReason {
    Forbidden,
    NotFound,
    Unknown,
}

/// The classified result of one delivery attempt.
#[allow(inconsistent_fields)]
#[derive(Clone, Copy, Debug, PartialEq, Eq, Structural)]
pub enum Outcome {
    /// The message was delivered.
    Success,
    /// The remote service asked to back off; `retry_after_ms` is `0` when it
    /// did not say for how long.
    RateLimited { retry_after_ms: u64 },
    /// The destination is gone for good and is to be unsubscribed.
    Fatal { reason: FatalReason },
    /// The attempt was refused; it is neither retried nor unsubscribed.
    Rejected { reason: RejectReason },
    /// The exchange itself failed; the attempt is not retried.
    TransportFailure,
}

impl Outcome {
    /// A terminal outcome ends the life of an attempt; only a rate limit
    /// sends the destination back into the queue.
    pub open spec fn is_terminal(self) -> bool {
        !(self is RateLimited)
    }

    /// Whether this outcome ends the attempt for good.
    pub fn terminal(&self) -> (t: bool)
        ensures
            t == self.is_terminal(),
    {
        match self {
            Outcome::RateLimited { .. } => false,
            _ => true,
        }
    }
}

/// What a finished attempt comes to: the classified response where the
/// exchange went through, a transport failure where it did not.
pub fn outcome_or_failure<E>(result: Result<Outcome, E>) -> (out: Outcome)
    ensures
        out == match result {
            Ok(outcome) => outcome,
            Err(_) => Outcome::TransportFailure,
        },
{
    match result {
        Ok(outcome) => outcome,
        Err(_) => Outcome::TransportFailure,
    }
}

} // verus!
