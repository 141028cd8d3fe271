//! The decisions of the orchestrator loop for one bridged direction, as a
//! function from state and event to next state and action. The caller
//! performs the action (an RPC call, a sleep) and feeds back the event.
use vstd::prelude::*;
use crate::hub::ClaimResult;

verus! {

/// Where the loop stands.
#[derive(Clone, Copy, Debug, PartialEq, Eq, Structural)]
pub enum Phase {
    Idle,
    Polling,
    Confirming,
    Submitting,
    /// Stopped on a fault that needs an operator.
    Halted,
    /// Shut down cleanly.
    Stopped,
}

/// What happened since the last step.
#[derive(Clone, Copy, Debug, PartialEq, Eq, Structural)]
pub enum LoopEvent {
    /// The polling cadence fired.
    Tick,
    /// New events were read from the chain and handed to the watcher.
    EventsFetched,
    /// The watcher has a confirmed event due next.
    NextReady,
    /// Nothing is due, or the next event is not confirmed yet.
    NothingReady,
    /// The hub answered the claim in flight.
    SubmitDone(ClaimResult),
    /// An RPC call failed or timed out.
    TransientFailure,
    /// The signer could not sign.
    SigningFailure,
    /// The process is shutting down.
    ShutdownRequested,
}

/// What the caller does next.
#[derive(Clone, Copy, Debug, PartialEq, Eq, Structural)]
pub enum LoopAction {
    /// Nothing: wait for the next event.
    Wait,
    /// Read new events from the chain.
    FetchEvents,
    /// Ask the watcher for the next confirmed event.
    CheckNext,
    /// Sign and submit the claim for the next event.
    SubmitNext,
    /// Mark the next event delivered, then ask for the one after.
    Acknowledge,
    /// Resume after the hub's last accepted nonce.
    Resync { hub_last: u64 },
    /// Sleep this many milliseconds, then tick.
    Sleep { millis: u64 },
    /// Surface a fault to the operator.
    ReportFault,
    /// Leave the loop.
    Exit,
}

/// Cadence and backoff, in milliseconds.
#[derive(Clone, Copy, Debug, PartialEq, Eq)]
pub struct LoopConfig {
    pub poll_interval_ms: u64,
    pub backoff_base_ms: u64,
    pub backoff_max_ms: u64,
}

/// The loop's state: its phase, the failures in a row, and whether
/// shutdown has begun.
#[derive(Clone, Copy, Debug, PartialEq, Eq)]
pub struct LoopState {
    pub phase: Phase,
    pub retries: u32,
    pub shutting_down: bool,
}

pub open spec fn min_int(a: int, b: int) -> int {
    if a <= b {
        a
    } else {
        b
    }
}

/// The wait after `n` failures in a row: the base doubled `n` times, never
/// above the cap.
pub open spec fn backoff_spec(base: u64, max: u64, n: nat) -> int
    decreases n,
{
    if n == 0 {
        min_int(base as int, max as int)
    } else {
        min_int(2 * backoff_spec(base, max, (n - 1) as nat), max as int)
    }
}

/// The wait after `retries` failures in a row.
pub fn backoff_delay(cfg: &LoopConfig, retries: u32) -> (r: u64)
    ensures
        r == backoff_spec(cfg.backoff_base_ms, cfg.backoff_max_ms, retries as nat),
{
    let max = cfg.backoff_max_ms;
    let mut d: u64 = if cfg.backoff_base_ms <= max {
        cfg.backoff_base_ms
    } else {
        max
    };
    let mut k: u32 = 0;
    while k < retries
        invariant
            k <= retries,
            d <= max,
            d == backoff_spec(cfg.backoff_base_ms, max, k as nat),
        decreases retries - k,
    {
        if d >= max - d {
            d = max;
        } else {
            d = 2 * d;
        }
        k = k + 1;
    }
    d
}

pub open spec fn failed(s: LoopState, cfg: LoopConfig) -> (LoopState, LoopAction) {
    if s.shutting_down {
        (LoopState { phase: Phase::Stopped, ..s }, LoopAction::Exit)
    } else {
        (
            LoopState {
                phase: Phase::Idle,
                retries: if s.retries < u32::MAX {
                    (s.retries + 1) as u32
                } else {
                    s.retries
                },
                shutting_down: false,
            },
            LoopAction::Sleep {
                millis: backoff_spec(cfg.backoff_base_ms, cfg.backoff_max_ms, s.retries as nat) as u64,
            },
        )
    }
}

pub open spec fn step_spec(s: LoopState, e: LoopEvent, cfg: LoopConfig) -> (LoopState, LoopAction) {
    if s.phase == Phase::Halted || s.phase == Phase::Stopped {
        (s, LoopAction::Wait)
    } else {
        match e {
            LoopEvent::ShutdownRequested => if s.phase == Phase::Submitting {
                (LoopState { shutting_down: true, ..s }, LoopAction::Wait)
            } else {
                (LoopState { phase: Phase::Stopped, shutting_down: true, ..s }, LoopAction::Exit)
            },
            LoopEvent::SigningFailure => (LoopState { phase: Phase::Halted, ..s }, LoopAction::ReportFault),
            LoopEvent::TransientFailure => failed(s, cfg),
            LoopEvent::Tick => if s.phase == Phase::Idle {
                (LoopState { phase: Phase::Polling, ..s }, LoopAction::FetchEvents)
            } else {
                (s, LoopAction::Wait)
            },
            LoopEvent::EventsFetched => if s.phase == Phase::Polling {
                (LoopState { phase: Phase::Confirming, retries: 0, ..s }, LoopAction::CheckNext)
            } else {
                (s, LoopAction::Wait)
            },
            LoopEvent::NextReady => if s.phase == Phase::Confirming {
                (LoopState { phase: Phase::Submitting, ..s }, LoopAction::SubmitNext)
            } else {
                (s, LoopAction::Wait)
            },
            LoopEvent::NothingReady => if s.phase == Phase::Confirming {
                (LoopState { phase: Phase::Idle, ..s }, LoopAction::Sleep { millis: cfg.poll_interval_ms })
            } else {
                (s, LoopAction::Wait)
            },
            LoopEvent::SubmitDone(res) => if s.phase != Phase::Submitting {
                (s, LoopAction::Wait)
            } else {
                match res {
                    ClaimResult::Accepted | ClaimResult::Observed | ClaimResult::Duplicate => (
                        LoopState {
                            phase: if s.shutting_down {
                                Phase::Stopped
                            } else {
                                Phase::Confirming
                            },
                            retries: 0,
                            shutting_down: s.shutting_down,
                        },
                        LoopAction::Acknowledge,
                    ),
                    ClaimResult::NonceGap { expected } => if s.shutting_down {
                        (LoopState { phase: Phase::Stopped, ..s }, LoopAction::Exit)
                    } else {
                        (
                            LoopState { phase: Phase::Polling, ..s },
                            LoopAction::Resync { hub_last: (if expected > 0 { expected - 1 } else { 0 }) as u64 },
                        )
                    },
                    _ => (LoopState { phase: Phase::Halted, ..s }, LoopAction::ReportFault),
                }
            },
        }
    }
}

impl LoopState {
    /// A loop that has not started.
    pub fn new() -> (r: LoopState)
        ensures
            r.phase == Phase::Idle,
            r.retries == 0,
            !r.shutting_down,
    {
        LoopState { phase: Phase::Idle, retries: 0, shutting_down: false }
    }

    /// One decision of the loop.
    pub fn step(self, e: LoopEvent, cfg: &LoopConfig) -> (r: (LoopState, LoopAction))
        ensures
            r == step_spec(self, e, *cfg),
    {
        let s = self;
        if s.phase == Phase::Halted || s.phase == Phase::Stopped {
            return (s, LoopAction::Wait);
        }
        match e {
            LoopEvent::ShutdownRequested => if s.phase == Phase::Submitting {
                (LoopState { shutting_down: true, ..s }, LoopAction::Wait)
            } else {
                (LoopState { phase: Phase::Stopped, shutting_down: true, ..s }, LoopAction::Exit)
            },
            LoopEvent::SigningFailure => (LoopState { phase: Phase::Halted, ..s }, LoopAction::ReportFault),
            LoopEvent::TransientFailure => if s.shutting_down {
                (LoopState { phase: Phase::Stopped, ..s }, LoopAction::Exit)
            } else {
                let millis = backoff_delay(cfg, s.retries);
                let retries = if s.retries < u32::MAX {
                    s.retries + 1
                } else {
                    s.retries
                };
                (LoopState { phase: Phase::Idle, retries, shutting_down: false }, LoopAction::Sleep { millis })
            },
            LoopEvent::Tick => if s.phase == Phase::Idle {
                (LoopState { phase: Phase::Polling, ..s }, LoopAction::FetchEvents)
            } else {
                (s, LoopAction::Wait)
            },
            LoopEvent::EventsFetched => if s.phase == Phase::Polling {
                (LoopState { phase: Phase::Confirming, retries: 0, ..s }, LoopAction::CheckNext)
            } else {
                (s, LoopAction::Wait)
            },
            LoopEvent::NextReady => if s.phase == Phase::Confirming {
                (LoopState { phase: Phase::Submitting, ..s }, LoopAction::SubmitNext)
            } else {
                (s, LoopAction::Wait)
            },
            LoopEvent::NothingReady => if s.phase == Phase::Confirming {
                (LoopState { phase: Phase::Idle, ..s }, LoopAction::Sleep { millis: cfg.poll_interval_ms })
            } else {
                (s, LoopAction::Wait)
            },
            LoopEvent::SubmitDone(res) => if s.phase != Phase::Submitting {
                (s, LoopAction::Wait)
            } else {
                match res {
                    ClaimResult::Accepted | ClaimResult::Observed | ClaimResult::Duplicate => (
                        LoopState {
                            phase: if s.shutting_down {
                                Phase::Stopped
                            } else {
                                Phase::Confirming
                            },
                            retries: 0,
                            shutting_down: s.shutting_down,
                        },
                        LoopAction::Acknowledge,
                    ),
                    ClaimResult::NonceGap { expected } => if s.shutting_down {
                        (LoopState { phase: Phase::Stopped, ..s }, LoopAction::Exit)
                    } else {
                        let hub_last = if expected > 0 {
                            expected - 1
                        } else {
                            0
                        };
                        (LoopState { phase: Phase::Polling, ..s }, LoopAction::Resync { hub_last })
                    },
                    _ => (LoopState { phase: Phase::Halted, ..s }, LoopAction::ReportFault),
                }
            },
        }
    }
}

/// Once shutdown has begun, the loop starts no new fetch, check or
/// submission, and it stays shut down.
pub proof fn lemma_no_new_work_after_shutdown(s: LoopState, e: LoopEvent, cfg: LoopConfig)
    requires
        s.shutting_down,
        s.phase == Phase::Submitting || s.phase == Phase::Stopped || s.phase == Phase::Halted,
    ensures
        step_spec(s, e, cfg).1 != LoopAction::FetchEvents,
        step_spec(s, e, cfg).1 != LoopAction::CheckNext,
        step_spec(s, e, cfg).1 != LoopAction::SubmitNext,
        step_spec(s, e, cfg).0.shutting_down,
        step_spec(s, e, cfg).0.phase == Phase::Submitting || step_spec(s, e, cfg).0.phase
            == Phase::Stopped || step_spec(s, e, cfg).0.phase == Phase::Halted,
{
}

} // verus!
