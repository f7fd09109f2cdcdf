//! Core logic of a one-switch USB HID foot pedal: a restart-on-change
//! debouncer over a wrapping microsecond clock, and a link-gated dispatch
//! policy that absorbs transient transport failures with a bounded retry
//! budget and escalates unsupported failures to a system reset request.
//!
//! Everything here is pure logic over plain values. The hardware shell
//! (clock, GPIO, USB transport, watchdog) feeds samples, timestamps and
//! transport outcomes in, and performs the actions these types decide on.

pub mod debounce;
pub mod dispatch;
pub mod error;
