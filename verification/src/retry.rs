//! Bounded retry for attaching a window observer.
//!
//! Attaching to a process that has just launched can fail transiently while
//! the process finishes initializing. The retry policy is an explicit
//! bounded decision — try again after a fixed delay until a deadline, then
//! give up openly — so that the give-up path is as testable as the happy
//! one. Giving up is not an error: the host simply never materializes.

use vstd::prelude::*;

verus! {

/// How long to wait between attach attempts, in milliseconds.
pub const RETRY_DELAY_MS: u64 = 500;

/// How long to keep attempting before giving up, in milliseconds.
pub const RETRY_CEILING_MS: u64 = 30000;

/// What one attach attempt reported.
#[derive(Debug, Clone, Copy, PartialEq, Eq, Structural)]
pub enum AttachOutcome {
    /// The observer attached; window events will flow.
    Started,
    /// The process does not exist or is not ready yet; this is the
    /// transient failure worth retrying.
    InvalidProcessId,
    /// The platform cannot observe this process at all (no accessibility
    /// support); retrying cannot help.
    NotSupported,
    /// Some other failure.
    OtherError,
}

/// What to do after one attach attempt.
#[derive(Debug, Clone, Copy, PartialEq, Eq, Structural)]
pub enum RetryDecision {
    /// Keep the attached observer; the overlay host can be built.
    Attached,
    /// Wait the given number of milliseconds and attempt again.
    RetryAfterDelay { delay_ms: u64 },
    /// Give up without error: this process gets no overlay host.
    Abandon,
    /// Give up and surface the failure.
    Fail,
}

/// The decision the policy takes for an attempt outcome observed after
/// `elapsed_ms` milliseconds of trying.
pub open spec fn spec_retry_decision(elapsed_ms: u64, outcome: AttachOutcome) -> RetryDecision {
    if elapsed_ms > RETRY_CEILING_MS {
        RetryDecision::Abandon
    } else {
        match outcome {
            AttachOutcome::Started => RetryDecision::Attached,
            AttachOutcome::InvalidProcessId => RetryDecision::RetryAfterDelay {
                delay_ms: RETRY_DELAY_MS,
            },
            AttachOutcome::NotSupported => RetryDecision::Abandon,
            AttachOutcome::OtherError => RetryDecision::Fail,
        }
    }
}

/// Decides what to do after one attach attempt: keep a started observer,
/// retry a not-ready process until the ceiling, abandon an unsupported or
/// timed-out process, and surface any other failure.
pub fn retry_decision(elapsed_ms: u64, outcome: &AttachOutcome) -> (r: RetryDecision)
    ensures
        r == spec_retry_decision(elapsed_ms, *outcome),
{
    if elapsed_ms > RETRY_CEILING_MS {
        return RetryDecision::Abandon;
    }
    match outcome {
        AttachOutcome::Started => RetryDecision::Attached,
        AttachOutcome::InvalidProcessId => RetryDecision::RetryAfterDelay {
            delay_ms: RETRY_DELAY_MS,
        },
        AttachOutcome::NotSupported => RetryDecision::Abandon,
        AttachOutcome::OtherError => RetryDecision::Fail,
    }
}

/// The policy never asks for another attempt once the ceiling has passed:
/// retrying always terminates.
pub proof fn lemma_retry_terminates(elapsed_ms: u64, outcome: AttachOutcome)
    requires
        elapsed_ms > RETRY_CEILING_MS,
    ensures
        spec_retry_decision(elapsed_ms, outcome) == RetryDecision::Abandon,
{
}

} // verus!
