use fx_bridge_core::hub::ClaimResult;
use fx_bridge_core::orchestrator::{backoff_delay, LoopAction, LoopConfig, LoopEvent, LoopState, Phase};

fn cfg() -> LoopConfig {
    LoopConfig { poll_interval_ms: 5_000, backoff_base_ms: 500, backoff_max_ms: 30_000 }
}

#[test]
fn backoff_doubles_up_to_the_cap() {
    let c = cfg();
    let got: Vec<u64> = (0..9u32).map(|n| backoff_delay(&c, n)).collect();
    assert_eq!(got, vec![500, 1000, 2000, 4000, 8000, 16000, 30000, 30000, 30000]);
    let big = LoopConfig { poll_interval_ms: 1, backoff_base_ms: u64::MAX - 1, backoff_max_ms: u64::MAX };
    assert_eq!(backoff_delay(&big, 3), u64::MAX);
    let low_cap = LoopConfig { poll_interval_ms: 1, backoff_base_ms: 100, backoff_max_ms: 50 };
    assert_eq!(backoff_delay(&low_cap, 0), 50);
}

#[test]
fn happy_path_cycle() {
    let c = cfg();
    let s = LoopState::new();
    let (s, a) = s.step(LoopEvent::Tick, &c);
    assert_eq!((s.phase, a), (Phase::Polling, LoopAction::FetchEvents));
    let (s, a) = s.step(LoopEvent::EventsFetched, &c);
    assert_eq!((s.phase, a), (Phase::Confirming, LoopAction::CheckNext));
    let (s, a) = s.step(LoopEvent::NextReady, &c);
    assert_eq!((s.phase, a), (Phase::Submitting, LoopAction::SubmitNext));
    let (s, a) = s.step(LoopEvent::SubmitDone(ClaimResult::Duplicate), &c);
    assert_eq!((s.phase, a), (Phase::Confirming, LoopAction::Acknowledge));
    let (s, a) = s.step(LoopEvent::NothingReady, &c);
    assert_eq!((s.phase, a), (Phase::Idle, LoopAction::Sleep { millis: 5_000 }));
}

#[test]
fn transient_failures_back_off_and_keep_state() {
    let c = cfg();
    let (s, _) = LoopState::new().step(LoopEvent::Tick, &c);
    let (s, a) = s.step(LoopEvent::TransientFailure, &c);
    assert_eq!((s.phase, s.retries, a), (Phase::Idle, 1, LoopAction::Sleep { millis: 500 }));
    let (s, _) = s.step(LoopEvent::Tick, &c);
    let (s, a) = s.step(LoopEvent::TransientFailure, &c);
    assert_eq!((s.phase, s.retries, a), (Phase::Idle, 2, LoopAction::Sleep { millis: 1000 }));
    let (s, _) = s.step(LoopEvent::Tick, &c);
    let (s, _) = s.step(LoopEvent::EventsFetched, &c);
    assert_eq!(s.retries, 0);
}

#[test]
fn gap_resyncs_and_faults_halt() {
    let c = cfg();
    let s = LoopState { phase: Phase::Submitting, retries: 0, shutting_down: false };
    let (s2, a) = s.step(LoopEvent::SubmitDone(ClaimResult::NonceGap { expected: 8 }), &c);
    assert_eq!((s2.phase, a), (Phase::Polling, LoopAction::Resync { hub_last: 7 }));
    let (s3, a) = s.step(LoopEvent::SubmitDone(ClaimResult::Conflict), &c);
    assert_eq!((s3.phase, a), (Phase::Halted, LoopAction::ReportFault));
    let (s4, a) = s3.step(LoopEvent::Tick, &c);
    assert_eq!((s4.phase, a), (Phase::Halted, LoopAction::Wait));
    let (s5, a) = LoopState::new().step(LoopEvent::SigningFailure, &c);
    assert_eq!((s5.phase, a), (Phase::Halted, LoopAction::ReportFault));
}

#[test]
fn shutdown_lets_the_submission_finish() {
    let c = cfg();
    let s = LoopState { phase: Phase::Submitting, retries: 0, shutting_down: false };
    let (s, a) = s.step(LoopEvent::ShutdownRequested, &c);
    assert_eq!((s.phase, s.shutting_down, a), (Phase::Submitting, true, LoopAction::Wait));
    let (s2, a) = s.step(LoopEvent::NextReady, &c);
    assert_eq!((s2.phase, a), (Phase::Submitting, LoopAction::Wait));
    let (s3, a) = s.step(LoopEvent::SubmitDone(ClaimResult::Accepted), &c);
    assert_eq!((s3.phase, a), (Phase::Stopped, LoopAction::Acknowledge));
    let (s4, a) = s3.step(LoopEvent::Tick, &c);
    assert_eq!((s4.phase, a), (Phase::Stopped, LoopAction::Wait));
    let (idle, a) = LoopState::new().step(LoopEvent::ShutdownRequested, &c);
    assert_eq!((idle.phase, a), (Phase::Stopped, LoopAction::Exit));
}
