//! The pin capability that the decoder consumes.
//!
//! The decoder never touches hardware itself: it drives and observes the
//! line through the [`Interrupt`] trait.  The trait carries a ghost model
//! of the line, the *script*: the sequence of durations, in microseconds,
//! that successive waits on the pin will report.  For a hardware backend
//! the script is the pulse train the sensor will emit; for [`SimPin`]
//! (`crate::sim`) it is the scripted replay.  Every contract of the
//! decoder is stated over this script, so whatever the pin reports, the
//! decoder's answer is the correct decoding of it.
//!
//! [`SimPin`]: crate::sim::SimPin

use vstd::prelude::*;

verus! {

/// What a wait for a level transition reports when the pin's upcoming
/// durations are `s` and the wall-clock bound is `max_us`: the next
/// duration if one arrives within the bound, otherwise a timeout.
pub open spec fn wait_reply(s: Seq<i32>, max_us: int) -> Option<i32> {
    if s.len() > 0 && 0 <= s[0] <= max_us {
        Some(s[0])
    } else {
        None
    }
}

/// The first `n` entries of `s` removed; all of them when `s` is shorter.
pub open spec fn dropn(s: Seq<i32>, n: int) -> Seq<i32> {
    if 0 <= n <= s.len() {
        s.skip(n)
    } else {
        Seq::empty()
    }
}

/// Dropping entries twice is dropping their sum once.
pub proof fn lemma_dropn_dropn(s: Seq<i32>, a: int, b: int)
    requires
        a >= 0,
        b >= 0,
    ensures
        dropn(dropn(s, a), b) == dropn(s, a + b),
{
    assert(dropn(dropn(s, a), b) =~= dropn(s, a + b));
}

/// One GPIO line with microsecond-class timing, the only collaborator of
/// the decoder.  Implementors promise, through the contracts below, that
/// the durations reported by successive waits are exactly the entries of
/// [`Interrupt::script`], in order, and that a reported duration never
/// exceeds the wall-clock bound handed to the wait.
///
/// The line is exclusively owned by one in-flight transaction: the
/// decoder holds the only handle to the pin for the duration of a read.
pub trait Interrupt: Sized {
    /// Fault type of the underlying pin; passed through unchanged.
    type Fault;

    /// The durations, in microseconds, that successive waits on this pin
    /// will report: the ghost model of the pulse train still to come.
    spec fn script(&self) -> Seq<i32>;

    /// Whether the pin is free of faults.  A reliable pin never returns
    /// `Err`; of an unreliable one nothing more is promised than the
    /// contracts below state of every outcome.
    spec fn reliable(&self) -> bool;

    /// Drive the line high.
    fn set_high(&mut self) -> (r: Result<(), Self::Fault>)
        ensures
            final(self).script() == old(self).script(),
            final(self).reliable() == old(self).reliable(),
            old(self).reliable() ==> r is Ok,
    ;

    /// Drive the line low.
    fn set_low(&mut self) -> (r: Result<(), Self::Fault>)
        ensures
            final(self).script() == old(self).script(),
            final(self).reliable() == old(self).reliable(),
            old(self).reliable() ==> r is Ok,
    ;

    /// Busy-wait for `us` microseconds.  The resolution must be
    /// microsecond-class: a sleep whose minimum granularity exceeds tens
    /// of microseconds cannot implement this.
    fn delay_us(&mut self, us: u32) -> (r: Result<(), Self::Fault>)
        ensures
            final(self).script() == old(self).script(),
            final(self).reliable() == old(self).reliable(),
            old(self).reliable() ==> r is Ok,
    ;

    /// Wait until the line reads `high`, bounded by `max_wait_us` of
    /// wall-clock time, and report the microseconds elapsed since the
    /// previous level change; `None` when the bound elapsed without the
    /// transition.  Implementations may busy-poll or block on an edge
    /// interrupt, but the bound must be wall-clock, not an iteration
    /// count.
    fn elapsed_us(&mut self, high: bool, max_wait_us: i32) -> (r: Result<
        Option<i32>,
        Self::Fault,
    >)
        requires
            max_wait_us >= 0,
        ensures
            final(self).script() == dropn(old(self).script(), 1),
            final(self).reliable() == old(self).reliable(),
            old(self).reliable() ==> r is Ok,
            r matches Ok(rep) ==> rep == wait_reply(old(self).script(), max_wait_us as int),
    ;
}

} // verus!
