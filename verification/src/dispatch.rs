//! Link-gated dispatch of debounced edges as HID mouse reports.
//!
//! Dispatch is driven as a small state machine so that the caller performs
//! the transport sends and the waits between them: `Dispatcher::start`
//! decides whether an edge may go out at all (only while the link is
//! `Configured`) and builds the report; `Dispatcher::step` takes the outcome
//! of one transport attempt and decides whether to retry after a delay or to
//! finish with an outcome. Transient failures are absorbed up to a retry
//! budget plus one final attempt; an unsupported operation is fatal and the
//! caller is directed to reset the whole system.

use vstd::prelude::*;

use crate::debounce::DebounceResult;

verus! {

/// Transport session phase, as reported by the link collaborator.
#[derive(Clone, Copy, Debug, PartialEq, Eq, Structural)]
pub enum LinkState {
    Unconfigured,
    Addressed,
    Configured,
    Suspended,
}

/// Failure reported by the transport's send operation.
#[derive(Clone, Copy, Debug, PartialEq, Eq, Structural)]
pub enum TransportError {
    /// The transport is momentarily busy.
    WouldBlock,
    /// The transport's internal buffer is full.
    BufferOverflow,
    /// Malformed data seen by the transport.
    ParseError,
    /// The transport is in an invalid session state.
    InvalidState,
    /// Endpoint-level overflow.
    EndpointOverflow,
    /// Endpoint memory exhausted.
    EndpointMemoryOverflow,
    /// An invalid endpoint was addressed.
    InvalidEndpoint,
    /// The operation is not supported by the transport at all.
    Unsupported,
}

/// Recoverability class of a transport failure.
#[derive(Clone, Copy, Debug, PartialEq, Eq, Structural)]
pub enum ErrorClass {
    /// Expected to resolve on its own shortly: retry after a delay.
    Transient,
    /// Common across host sleep/wake: surface and continue.
    Recoverable,
    /// More serious, but the device can keep operating: surface and continue.
    Serious,
    /// No local recovery: the only answer is a full system reset.
    Fatal,
}

/// The classification table: which failures are worth retrying, which are
/// surfaced and survived, and which end the device's life.
pub open spec fn spec_classify(e: TransportError) -> ErrorClass {
    match e {
        TransportError::WouldBlock => ErrorClass::Transient,
        TransportError::BufferOverflow => ErrorClass::Transient,
        TransportError::ParseError => ErrorClass::Recoverable,
        TransportError::InvalidState => ErrorClass::Recoverable,
        TransportError::EndpointOverflow => ErrorClass::Serious,
        TransportError::EndpointMemoryOverflow => ErrorClass::Serious,
        TransportError::InvalidEndpoint => ErrorClass::Serious,
        TransportError::Unsupported => ErrorClass::Fatal,
    }
}

/// Classify one transport failure.
pub fn classify(e: TransportError) -> (c: ErrorClass)
    ensures
        c == spec_classify(e),
{
    match e {
        TransportError::WouldBlock => ErrorClass::Transient,
        TransportError::BufferOverflow => ErrorClass::Transient,
        TransportError::ParseError => ErrorClass::Recoverable,
        TransportError::InvalidState => ErrorClass::Recoverable,
        TransportError::EndpointOverflow => ErrorClass::Serious,
        TransportError::EndpointMemoryOverflow => ErrorClass::Serious,
        TransportError::InvalidEndpoint => ErrorClass::Serious,
        TransportError::Unsupported => ErrorClass::Fatal,
    }
}

/// One outbound HID mouse report, as plain fields.
#[derive(Clone, Copy, Debug, PartialEq, Eq, Structural)]
pub struct Report {
    pub x: i8,
    pub y: i8,
    pub buttons: u8,
    pub wheel: i8,
    pub pan: i8,
}

/// Button bitmask carried by a report: bit `button - 1` set while the button
/// is pressed, all bits clear on release.
pub open spec fn spec_button_mask(pressed: bool, button: u8) -> u8 {
    if pressed {
        (1u8 << ((button - 1) as u8)) as u8
    } else {
        0u8
    }
}

/// The report dispatched for an edge of button `button`: a pure button
/// set/clear, with no motion.
pub open spec fn spec_report(pressed: bool, button: u8) -> Report {
    Report { x: 0, y: 0, buttons: spec_button_mask(pressed, button), wheel: 0, pan: 0 }
}

/// Build the outbound report for a debounced edge of button `button`
/// (button indices run 1 through 8).
pub fn build_report(edge: DebounceResult, button: u8) -> (r: Report)
    requires
        edge != DebounceResult::NoChange,
        1 <= button <= 8,
    ensures
        r == spec_report(edge is Pressed, button),
{
    let pressed: bool = match edge {
        DebounceResult::Pressed => true,
        _ => false,
    };
    let buttons: u8 = if pressed {
        1u8 << (button - 1)
    } else {
        0u8
    };
    Report { x: 0, y: 0, buttons, wheel: 0, pan: 0 }
}

/// Result of one whole dispatch of an edge.
#[derive(Clone, Copy, Debug, PartialEq, Eq, Structural)]
pub enum DispatchOutcome {
    /// The transport accepted the report.
    Sent,
    /// The transport failed in a way the device survives; the loop goes on.
    Retryable(TransportError),
    /// The transport failed in a way only a full system reset answers.
    Fatal(TransportError),
    /// The link was not configured; no attempt was made.
    Skipped,
}

/// Retry state of one dispatch in flight.
#[derive(Clone, Copy, Debug, PartialEq, Eq, Structural)]
pub struct Dispatcher {
    /// Transient failures that may still be absorbed before the one final,
    /// unretried attempt.
    pub retries_left: u8,
    /// Backoff the caller must wait between attempts, in milliseconds.
    pub retry_delay_ms: u32,
}

/// What a dispatch opens with: either it is already over (the link was not
/// configured), or the caller must send `Report` and feed each attempt's
/// outcome to `Dispatcher::step`.
#[derive(Clone, Copy, Debug, PartialEq, Eq, Structural)]
pub enum DispatchPlan {
    Finished(DispatchOutcome),
    Attempt(Report, Dispatcher),
}

/// What the caller must do after handing one attempt's outcome to `step`.
#[derive(Clone, Copy, Debug, PartialEq, Eq, Structural)]
pub enum StepVerdict {
    /// The dispatch is over with this outcome.
    Finished(DispatchOutcome),
    /// Wait this many milliseconds, then send the same report once more and
    /// hand the outcome back to `step`.
    Retry(u32),
}

/// What the main loop must do with a finished dispatch.
#[derive(Clone, Copy, Debug, PartialEq, Eq, Structural)]
pub enum LoopDirective {
    /// Keep polling.
    Continue,
    /// Request a full system reset.
    Reset,
}

impl Dispatcher {
    /// Open the dispatch of a debounced edge: skip it outright unless the
    /// link is `Configured`; otherwise hand back the report to send and the
    /// retry state to drive, with `retry_limit` transient failures allowed
    /// before the final attempt and `retry_delay_ms` of backoff between
    /// attempts.
    pub fn start(
        edge: DebounceResult,
        button: u8,
        link: LinkState,
        retry_limit: u8,
        retry_delay_ms: u32,
    ) -> (p: DispatchPlan)
        requires
            edge != DebounceResult::NoChange,
            1 <= button <= 8,
        ensures
            p == DispatchPlan::Finished(DispatchOutcome::Skipped) <==> link
                != LinkState::Configured,
            link == LinkState::Configured ==> p == DispatchPlan::Attempt(
                spec_report(edge is Pressed, button),
                Dispatcher { retries_left: retry_limit, retry_delay_ms },
            ),
    {
        if link != LinkState::Configured {
            DispatchPlan::Finished(DispatchOutcome::Skipped)
        } else {
            DispatchPlan::Attempt(
                build_report(edge, button),
                Dispatcher { retries_left: retry_limit, retry_delay_ms },
            )
        }
    }

    /// The verdict `step` returns on one attempt's outcome.
    pub open spec fn spec_step_verdict(self, attempt: Result<usize, TransportError>) -> StepVerdict {
        match attempt {
            Ok(_) => StepVerdict::Finished(DispatchOutcome::Sent),
            Err(e) => {
                if spec_classify(e) == ErrorClass::Transient {
                    if self.retries_left > 0 {
                        StepVerdict::Retry(self.retry_delay_ms)
                    } else {
                        StepVerdict::Finished(DispatchOutcome::Retryable(e))
                    }
                } else if spec_classify(e) == ErrorClass::Fatal {
                    StepVerdict::Finished(DispatchOutcome::Fatal(e))
                } else {
                    StepVerdict::Finished(DispatchOutcome::Retryable(e))
                }
            },
        }
    }

    /// The retry state `step` leaves behind on one attempt's outcome.
    pub open spec fn spec_step_state(self, attempt: Result<usize, TransportError>) -> Dispatcher {
        match attempt {
            Ok(_) => self,
            Err(e) => {
                if spec_classify(e) == ErrorClass::Transient && self.retries_left > 0 {
                    Dispatcher { retries_left: (self.retries_left - 1) as u8, ..self }
                } else {
                    self
                }
            },
        }
    }

    /// Drive the dispatch one attempt further. Success finishes with `Sent`
    /// at once; a transient failure spends one retry (or, with the budget
    /// exhausted, finishes with the failure); any other failure finishes at
    /// once, fatally so only for an unsupported operation.
    pub fn step(&mut self, attempt: Result<usize, TransportError>) -> (v: StepVerdict)
        ensures
            v == old(self).spec_step_verdict(attempt),
            *final(self) == old(self).spec_step_state(attempt),
    {
        match attempt {
            Ok(_) => StepVerdict::Finished(DispatchOutcome::Sent),
            Err(e) => {
                match classify(e) {
                    ErrorClass::Transient => {
                        if self.retries_left > 0 {
                            self.retries_left = self.retries_left - 1;
                            StepVerdict::Retry(self.retry_delay_ms)
                        } else {
                            StepVerdict::Finished(DispatchOutcome::Retryable(e))
                        }
                    },
                    ErrorClass::Fatal => StepVerdict::Finished(DispatchOutcome::Fatal(e)),
                    _ => StepVerdict::Finished(DispatchOutcome::Retryable(e)),
                }
            },
        }
    }
}

/// Outcome and number of transport attempts of a dispatch driven through
/// `step` on the attempt outcomes of `attempts`, in order; `None` when the
/// sequence ends before the dispatch does.
pub open spec fn spec_dispatch(
    d: Dispatcher,
    attempts: Seq<Result<usize, TransportError>>,
) -> Option<(DispatchOutcome, int)>
    decreases attempts.len(),
{
    if attempts.len() == 0 {
        None
    } else {
        match d.spec_step_verdict(attempts[0]) {
            StepVerdict::Finished(o) => Some((o, 1)),
            StepVerdict::Retry(_) => match spec_dispatch(
                d.spec_step_state(attempts[0]),
                attempts.drop_first(),
            ) {
                None => None,
                Some(rest) => Some((rest.0, rest.1 + 1)),
            },
        }
    }
}

/// Retry bound: against a transport that fails transiently on each of the
/// first `d.retries_left` attempts and succeeds on the next, the dispatch
/// returns `Sent` after exactly `d.retries_left + 1` transport calls.
pub proof fn lemma_retry_bound(d: Dispatcher, attempts: Seq<Result<usize, TransportError>>)
    requires
        attempts.len() == d.retries_left + 1,
        forall|i: int| 0 <= i < d.retries_left ==> ((#[trigger] attempts[i]) matches Err(e)
            && spec_classify(e) == ErrorClass::Transient),
        attempts[d.retries_left as int] is Ok,
    ensures
        spec_dispatch(d, attempts) == Some((DispatchOutcome::Sent, d.retries_left + 1 as int)),
    decreases d.retries_left,
{
    if d.retries_left == 0 {
        assert(attempts[0] is Ok);
    } else {
        assert(attempts[0] matches Err(e) && spec_classify(e) == ErrorClass::Transient);
        let d2 = d.spec_step_state(attempts[0]);
        let rest = attempts.drop_first();
        assert(d2.retries_left == d.retries_left - 1);
        assert forall|i: int| 0 <= i < d2.retries_left implies ((#[trigger] rest[i]) matches Err(
            e,
        ) && spec_classify(e) == ErrorClass::Transient) by {
            assert(rest[i] == attempts[i + 1]);
            assert(attempts[i + 1] matches Err(e) && spec_classify(e) == ErrorClass::Transient);
        }
        assert(rest[d2.retries_left as int] == attempts[d.retries_left as int]);
        lemma_retry_bound(d2, rest);
    }
}

/// A dispatch that finished on a sequence of attempt outcomes made at least
/// one transport call and no more than the sequence offered.
pub proof fn lemma_dispatch_attempt_count(d: Dispatcher, attempts: Seq<Result<usize, TransportError>>)
    ensures
        spec_dispatch(d, attempts) matches Some(run) ==> 1 <= run.1 <= attempts.len(),
    decreases attempts.len(),
{
    if attempts.len() > 0 {
        match d.spec_step_verdict(attempts[0]) {
            StepVerdict::Finished(_) => {},
            StepVerdict::Retry(_) => {
                lemma_dispatch_attempt_count(d.spec_step_state(attempts[0]), attempts.drop_first());
            },
        }
    }
}

/// Fatal escalation: if a dispatch run consumed an attempt that reported an
/// unsupported operation, that attempt was its last — the run ends on it at
/// once, no further transport call follows, the outcome is fatal, and the
/// directive on that outcome is a full system reset.
pub proof fn lemma_fatal_escalation(
    d: Dispatcher,
    attempts: Seq<Result<usize, TransportError>>,
    j: int,
)
    requires
        attempts[j] == Err::<usize, TransportError>(TransportError::Unsupported),
        spec_dispatch(d, attempts) matches Some(run) && 0 <= j < run.1,
    ensures
        spec_dispatch(d, attempts) == Some(
            (DispatchOutcome::Fatal(TransportError::Unsupported), j + 1),
        ),
        spec_directive(DispatchOutcome::Fatal(TransportError::Unsupported)) == LoopDirective::Reset,
    decreases attempts.len(),
{
    lemma_dispatch_attempt_count(d, attempts);
    match d.spec_step_verdict(attempts[0]) {
        StepVerdict::Finished(o) => {
            assert(j == 0);
        },
        StepVerdict::Retry(_) => {
            assert(spec_classify(TransportError::Unsupported) != ErrorClass::Transient);
            assert(j >= 1);
            let rest = attempts.drop_first();
            lemma_dispatch_attempt_count(d.spec_step_state(attempts[0]), rest);
            assert(rest[j - 1] == attempts[j]);
            lemma_fatal_escalation(d.spec_step_state(attempts[0]), rest, j - 1);
        },
    }
}

/// The directive the main loop follows for a finished dispatch: reset on a
/// fatal outcome, keep polling on every other.
pub open spec fn spec_directive(o: DispatchOutcome) -> LoopDirective {
    match o {
        DispatchOutcome::Fatal(_) => LoopDirective::Reset,
        _ => LoopDirective::Continue,
    }
}

/// Inspect a finished dispatch as the main loop does.
pub fn handle_outcome(o: DispatchOutcome) -> (r: LoopDirective)
    ensures
        r == spec_directive(o),
        r == LoopDirective::Reset <==> o is Fatal,
{
    match o {
        DispatchOutcome::Fatal(_) => LoopDirective::Reset,
        _ => LoopDirective::Continue,
    }
}

/// The LED level that reflects a link state: lit while the host has the
/// device configured (or is getting there), dark while the host sleeps.
pub open spec fn spec_led_for(s: LinkState) -> bool {
    match s {
        LinkState::Suspended => false,
        _ => true,
    }
}

/// Tracks the previously observed link state so that transitions — host
/// sleep and wake among them — can be told from steady states.
pub struct LinkMonitor {
    /// The link state seen by the previous poll.
    pub previous: LinkState,
}

impl LinkMonitor {
    /// Start observing from `initial`.
    pub fn new(initial: LinkState) -> (m: LinkMonitor)
        ensures
            m.previous == initial,
    {
        LinkMonitor { previous: initial }
    }

    /// Record one poll of the link state. On a transition, report the LED
    /// level to show for the new state; on a steady state, report nothing.
    pub fn observe(&mut self, current: LinkState) -> (led: Option<bool>)
        ensures
            final(self).previous == current,
            current == old(self).previous ==> led is None,
            current != old(self).previous ==> led == Some(spec_led_for(current)),
    {
        if current != self.previous {
            self.previous = current;
            let lit: bool = match current {
                LinkState::Suspended => false,
                _ => true,
            };
            Some(lit)
        } else {
            None
        }
    }
}

} // verus!
