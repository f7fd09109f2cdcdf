use footpedal::debounce::DebounceResult;
use footpedal::dispatch::{
    build_report, classify, handle_outcome, DispatchOutcome, DispatchPlan, Dispatcher, ErrorClass,
    LinkMonitor, LinkState, LoopDirective, Report, StepVerdict, TransportError,
};

#[test]
fn dispatch_skipped_unless_configured() {
    for link in [LinkState::Unconfigured, LinkState::Addressed, LinkState::Suspended] {
        let plan = Dispatcher::start(DebounceResult::Pressed, 8, link, 3, 100);
        assert_eq!(plan, DispatchPlan::Finished(DispatchOutcome::Skipped));
    }
}

#[test]
fn dispatch_attempts_when_configured() {
    let plan = Dispatcher::start(DebounceResult::Pressed, 8, LinkState::Configured, 3, 100);
    match plan {
        DispatchPlan::Attempt(report, d) => {
            assert_eq!(report.buttons, 0x80);
            assert_eq!((report.x, report.y, report.wheel, report.pan), (0, 0, 0, 0));
            assert_eq!(d.retries_left, 3);
            assert_eq!(d.retry_delay_ms, 100);
        }
        other => panic!("expected an attempt, got {:?}", other),
    }
}

#[test]
fn report_sets_and_clears_button_bit() {
    let press = build_report(DebounceResult::Pressed, 1);
    assert_eq!(press, Report { x: 0, y: 0, buttons: 0x01, wheel: 0, pan: 0 });
    let press8 = build_report(DebounceResult::Pressed, 8);
    assert_eq!(press8.buttons, 0x80);
    let release = build_report(DebounceResult::Released, 8);
    assert_eq!(release, Report { x: 0, y: 0, buttons: 0, wheel: 0, pan: 0 });
}

#[test]
fn retry_bound_busy_then_success() {
    // Busy for the first `retry_limit` calls, success on the next:
    // Sent, with exactly retry_limit + 1 transport calls.
    let retry_limit = 3u8;
    let mut d = Dispatcher { retries_left: retry_limit, retry_delay_ms: 100 };
    let mut calls = 0u32;
    for _ in 0..retry_limit {
        calls += 1;
        assert_eq!(d.step(Err(TransportError::WouldBlock)), StepVerdict::Retry(100));
    }
    calls += 1;
    assert_eq!(d.step(Ok(5)), StepVerdict::Finished(DispatchOutcome::Sent));
    assert_eq!(calls, u32::from(retry_limit) + 1);
}

#[test]
fn retries_exhausted_surface_last_transient() {
    let mut d = Dispatcher { retries_left: 2, retry_delay_ms: 50 };
    assert_eq!(d.step(Err(TransportError::WouldBlock)), StepVerdict::Retry(50));
    assert_eq!(d.step(Err(TransportError::BufferOverflow)), StepVerdict::Retry(50));
    // The final attempt is not retried: its transient failure is surfaced.
    assert_eq!(
        d.step(Err(TransportError::WouldBlock)),
        StepVerdict::Finished(DispatchOutcome::Retryable(TransportError::WouldBlock))
    );
}

#[test]
fn non_transient_failure_ends_dispatch_at_once() {
    let mut d = Dispatcher { retries_left: 3, retry_delay_ms: 100 };
    assert_eq!(
        d.step(Err(TransportError::InvalidState)),
        StepVerdict::Finished(DispatchOutcome::Retryable(TransportError::InvalidState))
    );
    // The retry budget was not touched.
    assert_eq!(d.retries_left, 3);
}

#[test]
fn unsupported_is_fatal_and_directs_reset() {
    let mut d = Dispatcher { retries_left: 3, retry_delay_ms: 100 };
    let verdict = d.step(Err(TransportError::Unsupported));
    assert_eq!(
        verdict,
        StepVerdict::Finished(DispatchOutcome::Fatal(TransportError::Unsupported))
    );
    assert_eq!(
        handle_outcome(DispatchOutcome::Fatal(TransportError::Unsupported)),
        LoopDirective::Reset
    );
}

#[test]
fn only_fatal_outcomes_direct_reset() {
    assert_eq!(handle_outcome(DispatchOutcome::Sent), LoopDirective::Continue);
    assert_eq!(handle_outcome(DispatchOutcome::Skipped), LoopDirective::Continue);
    assert_eq!(
        handle_outcome(DispatchOutcome::Retryable(TransportError::ParseError)),
        LoopDirective::Continue
    );
    assert_eq!(
        handle_outcome(DispatchOutcome::Fatal(TransportError::Unsupported)),
        LoopDirective::Reset
    );
}

#[test]
fn classification_table_is_exact() {
    assert_eq!(classify(TransportError::WouldBlock), ErrorClass::Transient);
    assert_eq!(classify(TransportError::BufferOverflow), ErrorClass::Transient);
    assert_eq!(classify(TransportError::ParseError), ErrorClass::Recoverable);
    assert_eq!(classify(TransportError::InvalidState), ErrorClass::Recoverable);
    assert_eq!(classify(TransportError::EndpointOverflow), ErrorClass::Serious);
    assert_eq!(classify(TransportError::EndpointMemoryOverflow), ErrorClass::Serious);
    assert_eq!(classify(TransportError::InvalidEndpoint), ErrorClass::Serious);
    assert_eq!(classify(TransportError::Unsupported), ErrorClass::Fatal);
}

#[test]
fn link_monitor_reports_transitions_only() {
    let mut m = LinkMonitor::new(LinkState::Unconfigured);
    assert_eq!(m.observe(LinkState::Unconfigured), None);
    assert_eq!(m.observe(LinkState::Addressed), Some(true));
    assert_eq!(m.observe(LinkState::Configured), Some(true));
    assert_eq!(m.observe(LinkState::Configured), None);
    assert_eq!(m.observe(LinkState::Suspended), Some(false));
    assert_eq!(m.observe(LinkState::Configured), Some(true));
}
