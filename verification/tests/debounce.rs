use footpedal::debounce::{DebounceResult, Debouncer};

#[test]
fn example_scenario_press_after_window() {
    // window = 10 ms; edge at t=0, still settling at 5 ms, fires at 12 ms.
    let mut d = Debouncer::create(10, 0);
    assert_eq!(d.process(true, 0), DebounceResult::NoChange);
    assert_eq!(d.process(true, 5_000), DebounceResult::NoChange);
    assert_eq!(d.process(true, 12_000), DebounceResult::Pressed);
    assert_eq!(d.process(true, 13_000), DebounceResult::NoChange);
    assert_eq!(d.process(true, 1_000_000), DebounceResult::NoChange);
}

#[test]
fn fast_toggle_never_fires() {
    // Toggling every millisecond against a 10 ms window: no event, ever.
    let mut d = Debouncer::create(10, 0);
    let mut level = false;
    for i in 0..50u64 {
        level = !level;
        assert_eq!(d.process(level, i * 1_000), DebounceResult::NoChange);
    }
    assert!(!d.stable_state);
}

#[test]
fn sustained_change_fires_exactly_once() {
    let mut d = Debouncer::create(10, 0);
    // Press: edge at 1 ms, held past the window.
    assert_eq!(d.process(true, 1_000), DebounceResult::NoChange);
    assert_eq!(d.process(true, 3_000), DebounceResult::NoChange);
    assert_eq!(d.process(true, 11_000), DebounceResult::Pressed);
    assert_eq!(d.process(true, 12_000), DebounceResult::NoChange);
    // Release: edge at 20 ms, held past the window: exactly one Released.
    assert_eq!(d.process(false, 20_000), DebounceResult::NoChange);
    assert_eq!(d.process(false, 25_000), DebounceResult::NoChange);
    assert_eq!(d.process(false, 30_000), DebounceResult::Released);
    assert_eq!(d.process(false, 31_000), DebounceResult::NoChange);
    assert_eq!(d.process(false, 99_000), DebounceResult::NoChange);
}

#[test]
fn repeated_samples_after_stabilization_are_idempotent() {
    let mut d = Debouncer::create(10, 0);
    assert_eq!(d.process(true, 0), DebounceResult::NoChange);
    assert_eq!(d.process(true, 10_000), DebounceResult::Pressed);
    for t in [10_001u64, 20_000, 500_000, u64::MAX] {
        assert_eq!(d.process(true, t), DebounceResult::NoChange);
        assert!(d.stable_state);
    }
}

#[test]
fn glitch_restarts_window() {
    let mut d = Debouncer::create(10, 0);
    assert_eq!(d.process(true, 0), DebounceResult::NoChange);
    // One-sample glitch at 5 ms restarts the window...
    assert_eq!(d.process(false, 5_000), DebounceResult::NoChange);
    assert_eq!(d.process(true, 9_000), DebounceResult::NoChange);
    // ...so 18 ms is still within the window restarted at 9 ms.
    assert_eq!(d.process(true, 18_000), DebounceResult::NoChange);
    assert_eq!(d.process(true, 19_000), DebounceResult::Pressed);
}

#[test]
fn wraparound_elapsed_is_correct() {
    // The edge lands 2 ms before the counter wraps; the event fires 8 ms
    // after the wrap, a true 10 ms later.
    let t0 = u64::MAX - 1_999;
    let mut d = Debouncer::create(10, t0);
    assert_eq!(d.process(true, t0), DebounceResult::NoChange);
    assert_eq!(d.process(true, 5_000), DebounceResult::NoChange); // 7 ms elapsed
    assert_eq!(d.process(true, 8_000), DebounceResult::Pressed); // 10 ms elapsed
    assert_eq!(d.process(true, 9_000), DebounceResult::NoChange);
}

#[test]
fn wraparound_behaves_like_unwrapped() {
    // The same sample offsets, with and without a wrap in between, take the
    // same path through the debouncer.
    let offsets = [0u64, 3_000, 7_000, 10_000, 11_000, 60_000];
    let samples = [true, true, true, true, true, false];

    let base_wrapped = u64::MAX - 4_999;
    let mut wrapped = Debouncer::create(10, base_wrapped);
    let mut plain = Debouncer::create(10, 100_000);
    for i in 0..offsets.len() {
        let rw = wrapped.process(samples[i], base_wrapped.wrapping_add(offsets[i]));
        let rp = plain.process(samples[i], 100_000 + offsets[i]);
        assert_eq!(rw, rp);
    }
    assert_eq!(wrapped.stable_state, plain.stable_state);
    assert_eq!(wrapped.last_sample, plain.last_sample);
}
