//! A simulated pin that replays a scripted pulse train.
//!
//! [`SimPin`] implements [`Interrupt`] against a fixed list of durations,
//! which makes it the test double for the decoder: feed it a reference
//! pulse train and every contract of `crate::protocol` applies to it with
//! the script known exactly.  It also witnesses that the contracts of
//! [`Interrupt`] are satisfiable.

use vstd::prelude::*;

use crate::pin::dropn;
use crate::pin::wait_reply;
use crate::pin::Interrupt;

verus! {

/// A pin whose waits report a fixed list of durations, in order, and
/// which never faults.
pub struct SimPin {
    replies: Vec<i32>,
    pos: usize,
}

impl SimPin {
    /// A pin that will report exactly the durations of `replies`.
    pub fn new(replies: Vec<i32>) -> (r: SimPin)
        ensures
            r.script() == replies@,
            r.reliable(),
    {
        let pin = SimPin { replies, pos: 0 };
        proof {
            assert(pin.script() =~= pin.replies@);
        }
        pin
    }
}

impl Interrupt for SimPin {
    type Fault = ();

    closed spec fn script(&self) -> Seq<i32> {
        if self.pos <= self.replies@.len() {
            self.replies@.skip(self.pos as int)
        } else {
            Seq::empty()
        }
    }

    closed spec fn reliable(&self) -> bool {
        true
    }

    fn set_high(&mut self) -> (r: Result<(), ()>) {
        Ok(())
    }

    fn set_low(&mut self) -> (r: Result<(), ()>) {
        Ok(())
    }

    fn delay_us(&mut self, _us: u32) -> (r: Result<(), ()>) {
        Ok(())
    }

    fn elapsed_us(&mut self, _high: bool, max_wait_us: i32) -> (r: Result<Option<i32>, ()>) {
        if self.pos < self.replies.len() {
            let d = self.replies[self.pos];
            self.pos = self.pos + 1;
            proof {
                assert(self.script() =~= dropn(old(self).script(), 1));
            }
            if 0 <= d && d <= max_wait_us {
                Ok(Some(d))
            } else {
                Ok(None)
            }
        } else {
            proof {
                assert(old(self).script().len() == 0);
                assert(self.script() =~= dropn(old(self).script(), 1));
            }
            Ok(None)
        }
    }
}

} // verus!
