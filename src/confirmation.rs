//! Decides when an observed external-chain event is final enough to act on.
use vstd::prelude::*;

verus! {

/// Blocks that must be built on top of an event's block.
pub const TX_CONFIRMATIONS_BLOCK_NUMBER: u64 = 1;

/// Seconds after first observation after which an event is acted on even
/// without full depth.
pub const TX_CONFIRMATIONS_TIMEOUT_SECS: u64 = 150;

/// The gating rule: required depth, and the wall-clock timeout in seconds.
#[derive(Clone, Copy, Debug, PartialEq, Eq)]
pub struct ConfirmationPolicy {
    pub depth: u64,
    pub timeout_secs: u64,
}

/// What the tracker knows of one event.
#[derive(Clone, Copy, Debug, PartialEq, Eq, Structural)]
pub enum ConfirmationStatus {
    /// Deep enough, or waited long enough: forward it.
    Confirmed,
    /// Neither yet: keep it back.
    Pending,
    /// The chain head could not be read: the caller retries.
    Unknown,
}

/// Blocks built on top of the event's block; none while the head lags it.
pub open spec fn depth_of(event_height: u64, head: u64) -> int {
    if head >= event_height {
        head - event_height
    } else {
        0
    }
}

pub open spec fn confirmed(p: ConfirmationPolicy, event_height: u64, head: u64, elapsed_secs: u64) -> bool {
    depth_of(event_height, head) >= p.depth || elapsed_secs >= p.timeout_secs
}

pub open spec fn status_spec(
    p: ConfirmationPolicy,
    event_height: u64,
    head: Option<u64>,
    elapsed_secs: u64,
) -> ConfirmationStatus {
    match head {
        None => ConfirmationStatus::Unknown,
        Some(h) => if confirmed(p, event_height, h, elapsed_secs) {
            ConfirmationStatus::Confirmed
        } else {
            ConfirmationStatus::Pending
        },
    }
}

impl ConfirmationPolicy {
    /// The policy of one block of depth or a 150 s wait.
    pub fn standard() -> (r: ConfirmationPolicy)
        ensures
            r.depth == TX_CONFIRMATIONS_BLOCK_NUMBER,
            r.timeout_secs == TX_CONFIRMATIONS_TIMEOUT_SECS,
    {
        ConfirmationPolicy {
            depth: TX_CONFIRMATIONS_BLOCK_NUMBER,
            timeout_secs: TX_CONFIRMATIONS_TIMEOUT_SECS,
        }
    }

    /// Classifies an event seen at `event_height`, given the chain head
    /// (`None` when it could not be read) and the seconds since the event
    /// was first observed.
    pub fn check(&self, event_height: u64, head: Option<u64>, elapsed_secs: u64) -> (r:
        ConfirmationStatus)
        ensures
            r == status_spec(*self, event_height, head, elapsed_secs),
    {
        match head {
            None => ConfirmationStatus::Unknown,
            Some(h) => {
                let depth: u64 = if h >= event_height {
                    h - event_height
                } else {
                    0
                };
                if depth >= self.depth || elapsed_secs >= self.timeout_secs {
                    ConfirmationStatus::Confirmed
                } else {
                    ConfirmationStatus::Pending
                }
            },
        }
    }
}

/// An event short of the required depth and younger than the timeout is
/// held back; one at least as old as the timeout goes through whatever its
/// depth, once the head is known.
pub proof fn lemma_confirmation_gating(
    p: ConfirmationPolicy,
    event_height: u64,
    head: u64,
    elapsed_secs: u64,
)
    ensures
        depth_of(event_height, head) < p.depth && elapsed_secs < p.timeout_secs ==> status_spec(
            p,
            event_height,
            Some(head),
            elapsed_secs,
        ) == ConfirmationStatus::Pending,
        elapsed_secs >= p.timeout_secs ==> status_spec(p, event_height, Some(head), elapsed_secs)
            == ConfirmationStatus::Confirmed,
        status_spec(p, event_height, None, elapsed_secs) == ConfirmationStatus::Unknown,
{
}

} // verus!
