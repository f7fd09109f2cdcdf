//! Restart-on-change debouncing of a raw boolean input.
//!
//! The debouncer trusts a new input level only after it has held steady for a
//! full window; any raw edge, even a one-sample glitch, restarts the window.
//! Timestamps come from a monotonic microsecond counter that may wrap, so all
//! elapsed-time arithmetic is done modulo 2^64.

use vstd::prelude::*;

verus! {

/// Verdict of one debounce step: either nothing fired, or the stable level
/// committed to a new value and the matching event is reported once.
#[derive(Clone, Copy, Debug, PartialEq, Eq, Structural)]
pub enum DebounceResult {
    NoChange,
    Pressed,
    Released,
}

/// Debounce state machine. A raw edge records the new level and restarts the
/// window; a level held for the whole window becomes the stable state, firing
/// `Pressed` or `Released` exactly once.
pub struct Debouncer {
    /// Clock reading (microseconds) at the most recent raw edge.
    pub last_change_time: u64,
    /// How long (microseconds) the input must hold a new level to be trusted.
    pub debounce_window: u64,
    /// The last level that survived a full window.
    pub stable_state: bool,
    /// The raw level seen by the previous sample.
    pub last_sample: bool,
}

/// Duration from `since` to `now` on a clock that wraps at 2^64 microseconds.
pub open spec fn elapsed_wrapping(now: u64, since: u64) -> u64 {
    if now >= since {
        (now - since) as u64
    } else {
        ((now + 0x1_0000_0000_0000_0000) - since) as u64
    }
}

/// Clock reading `t` advanced by `c` microseconds, wrapping at 2^64.
pub open spec fn wrap_add(t: u64, c: u64) -> u64 {
    if t + c <= u64::MAX {
        (t + c) as u64
    } else {
        ((t + c) - 0x1_0000_0000_0000_0000) as u64
    }
}

impl Debouncer {
    /// The result `process` returns from this state on `sample` at time `now`.
    pub open spec fn spec_result(self, sample: bool, now: u64) -> DebounceResult {
        if sample != self.last_sample {
            DebounceResult::NoChange
        } else if elapsed_wrapping(now, self.last_change_time) < self.debounce_window {
            DebounceResult::NoChange
        } else if sample != self.stable_state {
            if sample {
                DebounceResult::Pressed
            } else {
                DebounceResult::Released
            }
        } else {
            DebounceResult::NoChange
        }
    }

    /// The state `process` leaves behind from this state on `sample` at `now`.
    pub open spec fn spec_step(self, sample: bool, now: u64) -> Debouncer {
        if sample != self.last_sample {
            Debouncer { last_sample: sample, last_change_time: now, ..self }
        } else if elapsed_wrapping(now, self.last_change_time) < self.debounce_window {
            self
        } else if sample != self.stable_state {
            Debouncer { stable_state: sample, ..self }
        } else {
            self
        }
    }

    /// Make a debouncer with a window of `debounce_window_ms` milliseconds,
    /// treating the input as stably released at clock reading `now`.
    pub fn create(debounce_window_ms: u64, now: u64) -> (d: Debouncer)
        requires
            debounce_window_ms <= u64::MAX / 1000,
        ensures
            d.debounce_window == debounce_window_ms * 1000,
            d.last_change_time == now,
            d.stable_state == false,
            d.last_sample == false,
    {
        Debouncer {
            last_change_time: now,
            debounce_window: debounce_window_ms * 1000,
            stable_state: false,
            last_sample: false,
        }
    }

    /// Feed one raw sample taken at clock reading `now`.
    pub fn process(&mut self, sample: bool, now: u64) -> (r: DebounceResult)
        ensures
            r == old(self).spec_result(sample, now),
            *final(self) == old(self).spec_step(sample, now),
    {
        if sample != self.last_sample {
            self.last_sample = sample;
            self.last_change_time = now;
            return DebounceResult::NoChange;
        }
        let elapsed: u64 = if now >= self.last_change_time {
            now - self.last_change_time
        } else {
            u64::MAX - self.last_change_time + now + 1
        };
        if elapsed < self.debounce_window {
            return DebounceResult::NoChange;
        }
        if sample != self.stable_state {
            self.stable_state = sample;
            if sample {
                DebounceResult::Pressed
            } else {
                DebounceResult::Released
            }
        } else {
            DebounceResult::NoChange
        }
    }
}

/// State reached by feeding the `(sample, time)` pairs of `trace` in order.
pub open spec fn run(d: Debouncer, trace: Seq<(bool, u64)>) -> Debouncer
    decreases trace.len(),
{
    if trace.len() == 0 {
        d
    } else {
        run(d, trace.drop_last()).spec_step(trace.last().0, trace.last().1)
    }
}

/// Result returned by the call made at position `i` of `trace`.
pub open spec fn result_at(d: Debouncer, trace: Seq<(bool, u64)>, i: int) -> DebounceResult {
    run(d, trace.take(i)).spec_result(trace[i].0, trace[i].1)
}

/// The sample at position `i` arrives "too fast": it either toggles the raw
/// level, or comes before the window since the last toggle has elapsed.
pub open spec fn sample_within_window(d: Debouncer, trace: Seq<(bool, u64)>, i: int) -> bool {
    let pre = run(d, trace.take(i));
    trace[i].0 != pre.last_sample
        || elapsed_wrapping(trace[i].1, pre.last_change_time) < pre.debounce_window
}

/// Debounce stability: an input that keeps toggling faster than the window
/// never fires an event — every call returns `NoChange` — and the stable
/// level never moves.
pub proof fn lemma_debounce_stability(d: Debouncer, trace: Seq<(bool, u64)>)
    requires
        forall|i: int| 0 <= i < trace.len() ==> sample_within_window(d, trace, i),
    ensures
        forall|i: int| 0 <= i < trace.len() ==> result_at(d, trace, i) == DebounceResult::NoChange,
        run(d, trace).stable_state == d.stable_state,
        run(d, trace).debounce_window == d.debounce_window,
    decreases trace.len(),
{
    if trace.len() > 0 {
        let last: int = trace.len() - 1;
        let prefix = trace.drop_last();
        assert forall|i: int| 0 <= i < prefix.len() implies sample_within_window(d, prefix, i) by {
            assert(prefix.take(i) =~= trace.take(i));
            assert(sample_within_window(d, trace, i));
        }
        lemma_debounce_stability(d, prefix);
        assert(trace.take(last) =~= prefix);
        assert(sample_within_window(d, trace, last));
        assert forall|i: int| 0 <= i < trace.len() implies result_at(d, trace, i)
            == DebounceResult::NoChange by {
            if i < last {
                assert(prefix.take(i) =~= trace.take(i));
                assert(result_at(d, prefix, i) == DebounceResult::NoChange);
            }
        }
    }
}

/// Debounce correctness: from a stable, settled level `!v`, a change to `v`
/// that first shows at position 0 and is then held steady fires exactly one
/// event — at the first position `k` at which the window has elapsed — and
/// that event is `Pressed` when `v` is true and `Released` when it is false.
/// Every other call of the trace returns `NoChange`, and afterwards the
/// debouncer is settled at `v`.
pub proof fn lemma_debounce_correctness(d: Debouncer, trace: Seq<(bool, u64)>, k: int, v: bool)
    requires
        d.stable_state == !v,
        d.last_sample == !v,
        forall|i: int| 0 <= i < trace.len() ==> trace[i].0 == v,
        1 <= k < trace.len(),
        forall|i: int| 1 <= i < k ==> elapsed_wrapping(trace[i].1, trace[0].1) < d.debounce_window,
        elapsed_wrapping(trace[k].1, trace[0].1) >= d.debounce_window,
    ensures
        forall|i: int| 0 <= i < trace.len() && i != k ==> result_at(d, trace, i)
            == DebounceResult::NoChange,
        result_at(d, trace, k) == (if v {
            DebounceResult::Pressed
        } else {
            DebounceResult::Released
        }),
        run(d, trace) == (Debouncer {
            last_change_time: trace[0].1,
            debounce_window: d.debounce_window,
            stable_state: v,
            last_sample: v,
        }),
{
    assert(trace.take(0) =~= Seq::<(bool, u64)>::empty());
    assert forall|i: int| 1 <= i <= k implies run(d, trace.take(i)) == (Debouncer {
        last_change_time: trace[0].1,
        debounce_window: d.debounce_window,
        stable_state: d.stable_state,
        last_sample: v,
    }) by {
        lemma_state_while_settling(d, trace, k, v, i);
    }
    assert forall|i: int| k < i <= trace.len() implies run(d, trace.take(i)) == (Debouncer {
        last_change_time: trace[0].1,
        debounce_window: d.debounce_window,
        stable_state: v,
        last_sample: v,
    }) by {
        lemma_state_after_commit(d, trace, k, v, i);
    }
    assert(trace.take(trace.len() as int) =~= trace);
    assert(run(d, trace) == run(d, trace.take(trace.len() as int)));
}

/// After the edge at position 0 and before the commit at position `k`, the
/// debouncer holds the new raw level with the window anchored at the edge.
proof fn lemma_state_while_settling(d: Debouncer, trace: Seq<(bool, u64)>, k: int, v: bool, i: int)
    requires
        d.stable_state == !v,
        d.last_sample == !v,
        forall|j: int| 0 <= j < trace.len() ==> trace[j].0 == v,
        1 <= k < trace.len(),
        forall|j: int| 1 <= j < k ==> elapsed_wrapping(trace[j].1, trace[0].1) < d.debounce_window,
        1 <= i <= k,
    ensures
        run(d, trace.take(i)) == (Debouncer {
            last_change_time: trace[0].1,
            debounce_window: d.debounce_window,
            stable_state: d.stable_state,
            last_sample: v,
        }),
    decreases i,
{
    if i == 1 {
        assert(trace.take(1).drop_last() =~= Seq::<(bool, u64)>::empty());
        assert(trace.take(1).last() == trace[0]);
        assert(run(d, Seq::<(bool, u64)>::empty()) == d);
        assert(run(d, trace.take(1)) == d.spec_step(trace[0].0, trace[0].1));
        assert(trace[0].0 == v);
    } else {
        lemma_state_while_settling(d, trace, k, v, i - 1);
        assert(trace.take(i).drop_last() =~= trace.take(i - 1));
        assert(trace.take(i).last() == trace[i - 1]);
        assert(trace[i - 1].0 == v);
        assert(elapsed_wrapping(trace[i - 1].1, trace[0].1) < d.debounce_window);
    }
}

/// Once the held level has outlived the window, the debouncer is settled at
/// it and no later sample of the same level moves it.
proof fn lemma_state_after_commit(d: Debouncer, trace: Seq<(bool, u64)>, k: int, v: bool, i: int)
    requires
        d.stable_state == !v,
        d.last_sample == !v,
        forall|j: int| 0 <= j < trace.len() ==> trace[j].0 == v,
        1 <= k < trace.len(),
        forall|j: int| 1 <= j < k ==> elapsed_wrapping(trace[j].1, trace[0].1) < d.debounce_window,
        elapsed_wrapping(trace[k].1, trace[0].1) >= d.debounce_window,
        k < i <= trace.len(),
    ensures
        run(d, trace.take(i)) == (Debouncer {
            last_change_time: trace[0].1,
            debounce_window: d.debounce_window,
            stable_state: v,
            last_sample: v,
        }),
    decreases i,
{
    if i == k + 1 {
        lemma_state_while_settling(d, trace, k, v, k);
        assert(trace.take(i).drop_last() =~= trace.take(k));
        assert(trace.take(i).last() == trace[k]);
    } else {
        lemma_state_after_commit(d, trace, k, v, i - 1);
        assert(trace.take(i).drop_last() =~= trace.take(i - 1));
        assert(trace.take(i).last() == trace[i - 1]);
    }
}

/// Idempotence: once the debouncer is settled — the raw level and the stable
/// level agree — repeating that same level returns `NoChange` every time,
/// whatever the timestamps, and leaves the whole state untouched.
pub proof fn lemma_debounce_idempotence(d: Debouncer, trace: Seq<(bool, u64)>)
    requires
        d.last_sample == d.stable_state,
        forall|i: int| 0 <= i < trace.len() ==> trace[i].0 == d.stable_state,
    ensures
        forall|i: int| 0 <= i < trace.len() ==> result_at(d, trace, i) == DebounceResult::NoChange,
        run(d, trace) == d,
    decreases trace.len(),
{
    if trace.len() > 0 {
        let last: int = trace.len() - 1;
        let prefix = trace.drop_last();
        lemma_debounce_idempotence(d, prefix);
        assert(trace.take(last) =~= prefix);
        assert forall|i: int| 0 <= i < trace.len() implies result_at(d, trace, i)
            == DebounceResult::NoChange by {
            if i < last {
                assert(prefix.take(i) =~= trace.take(i));
                assert(result_at(d, prefix, i) == DebounceResult::NoChange);
            }
        }
    }
}

/// The wrapping difference recovers a true advance exactly: moving a clock
/// reading forward by `delta` — across the counter's overflow or not — makes
/// the computed elapsed time `delta`.
pub proof fn lemma_elapsed_of_advance(t: u64, delta: u64)
    ensures
        elapsed_wrapping(wrap_add(t, delta), t) == delta,
{
}

/// Wraparound safety: the debouncer behaves identically whether or not the
/// clock has wrapped — shifting the anchored edge time and the current time
/// by one common offset (mod 2^64) changes neither the result nor anything
/// but the anchor of the successor state, which shifts by the same offset.
pub proof fn lemma_debounce_wraparound(d: Debouncer, sample: bool, now: u64, c: u64)
    ensures
        ({
            let shifted = Debouncer { last_change_time: wrap_add(d.last_change_time, c), ..d };
            &&& shifted.spec_result(sample, wrap_add(now, c)) == d.spec_result(sample, now)
            &&& shifted.spec_step(sample, wrap_add(now, c)) == (Debouncer {
                last_change_time: wrap_add(d.spec_step(sample, now).last_change_time, c),
                ..d.spec_step(sample, now)
            })
        }),
{
    lemma_elapsed_shift(now, d.last_change_time, c);
}

/// Shifting both ends of a wrapping interval by one offset keeps its length.
pub proof fn lemma_elapsed_shift(now: u64, since: u64, c: u64)
    ensures
        elapsed_wrapping(wrap_add(now, c), wrap_add(since, c)) == elapsed_wrapping(now, since),
{
}

/// Wraparound safety over a whole run: feeding the same samples with every
/// timestamp shifted by one common offset (mod 2^64) — so that the counter
/// wraps at a different point, or not at all — returns the same result at
/// every position and ends in the same state up to the shifted anchor.
pub proof fn lemma_run_wraparound(
    d: Debouncer,
    trace: Seq<(bool, u64)>,
    shifted: Seq<(bool, u64)>,
    c: u64,
)
    requires
        shifted.len() == trace.len(),
        forall|i: int| 0 <= i < trace.len() ==> #[trigger] shifted[i] == (
            trace[i].0,
            wrap_add(trace[i].1, c),
        ),
    ensures
        run(Debouncer { last_change_time: wrap_add(d.last_change_time, c), ..d }, shifted) == (
        Debouncer {
            last_change_time: wrap_add(run(d, trace).last_change_time, c),
            ..run(d, trace)
        }),
        forall|i: int| 0 <= i < trace.len() ==> result_at(
            Debouncer { last_change_time: wrap_add(d.last_change_time, c), ..d },
            shifted,
            i,
        ) == result_at(d, trace, i),
    decreases trace.len(),
{
    let ds = Debouncer { last_change_time: wrap_add(d.last_change_time, c), ..d };
    if trace.len() > 0 {
        let last: int = trace.len() - 1;
        let prefix = trace.drop_last();
        let prefix_s = shifted.drop_last();
        assert forall|i: int| 0 <= i < prefix.len() implies #[trigger] prefix_s[i] == (
            prefix[i].0,
            wrap_add(prefix[i].1, c),
        ) by {
            assert(shifted[i] == (trace[i].0, wrap_add(trace[i].1, c)));
        }
        lemma_run_wraparound(d, prefix, prefix_s, c);
        let pre = run(d, prefix);
        assert(shifted[last] == (trace[last].0, wrap_add(trace[last].1, c)));
        lemma_debounce_wraparound(pre, trace[last].0, trace[last].1, c);
        assert forall|i: int| 0 <= i < trace.len() implies result_at(ds, shifted, i) == result_at(
            d,
            trace,
            i,
        ) by {
            if i < last {
                assert(prefix.take(i) =~= trace.take(i));
                assert(prefix_s.take(i) =~= shifted.take(i));
                assert(result_at(ds, prefix_s, i) == result_at(d, prefix, i));
            } else {
                assert(trace.take(last) =~= prefix);
                assert(shifted.take(last) =~= prefix_s);
            }
        }
    }
}

} // verus!

