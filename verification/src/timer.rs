//! A periodic signal source: the configuration of a loop that sends a fixed
//! signal down a channel on an interval. The loop itself runs outside; only
//! the configuration and its meaning live here.

use std::sync::mpsc::Sender;

use vstd::prelude::*;

verus! {

/// The configuration of one ticking loop: every `interval_ms` milliseconds,
/// a copy of `signal` goes down `tx`, until the receiver goes away.
#[verifier::reject_recursive_types(T)]
pub struct Timer<T> {
    pub tx: Sender<T>,
    pub signal: T,
    pub interval_ms: u64,
}

impl<T> Timer<T> {
    pub fn new(interval_ms: u64, tx: Sender<T>, signal: T) -> (t: Timer<T>)
        ensures
            t.interval_ms == interval_ms,
            t.tx == tx,
            t.signal == signal,
    {
        Timer { tx, signal, interval_ms }
    }
}

} // verus!
