//! The host-side decisions of a batched device sweep: after each dispatch of
//! `threads * groups` invocations and the read-back of the finished flag, what
//! to dispatch next, or whether the sweep is over.
use vstd::prelude::*;

verus! {

/// What the host does after reading back the finished flag of a dispatch.
#[derive(Debug, Clone, Copy, PartialEq, Eq, Structural)]
pub enum SweepStep {
    /// Dispatch the batch of X from `x_offset` for this `y`; when `new_y`
    /// holds, the per-Y accumulator must be prepared and uploaded first.
    Dispatch { y: u32, x_offset: u32, new_y: bool },
    /// A dispatch raised the finished flag: the result buffer holds the match.
    Found,
    /// Every X has been tried for every Y up to the largest one.
    Exhausted,
}

/// The position of a batched sweep over `(y, x)`: the batch last dispatched
/// covers X from `x_offset` to `x_offset + batch - 1` for this `y`.
#[derive(Debug, Clone, Copy, PartialEq, Eq, Structural)]
pub struct DeviceSweep {
    pub y: u32,
    pub x_offset: u32,
    pub batch: u64,
}

impl DeviceSweep {
    /// Whether the batch size is that of a real dispatch.
    pub open spec fn wf(&self) -> bool {
        0 < self.batch <= 0xffff_ffff * 0xffff_ffff
    }

    /// A sweep whose first batch is X from zero for Y = `init`; `None` when
    /// `threads` or `groups` is zero, since a batch would then cover nothing.
    pub fn new(init: u32, threads: u32, groups: u32) -> (r: Option<DeviceSweep>)
        ensures
            r is None <==> threads == 0 || groups == 0,
            r matches Some(s) ==> s.wf() && s.y == init && s.x_offset == 0
                && s.batch == threads as int * groups as int,
    {
        if threads == 0 || groups == 0 {
            return None;
        }
        proof {
            assert(0 < threads as int * groups as int <= 0xffff_ffff * 0xffff_ffff) by (nonlinear_arith)
                requires
                    0 < threads <= 0xffff_ffff,
                    0 < groups <= 0xffff_ffff,
            ;
        }
        Some(DeviceSweep { y: init, x_offset: 0, batch: (threads as u64) * (groups as u64) })
    }

    /// The step after the current batch, given the finished flag read back
    /// from the device. Without a match the sweep advances X by one batch,
    /// moves on to the next Y once X would pass `u32::MAX`, and ends after
    /// the largest Y.
    pub fn next(&mut self, finished: bool) -> (r: SweepStep)
        requires
            old(self).wf(),
        ensures
            final(self).wf(),
            final(self).batch == old(self).batch,
            finished ==> r == SweepStep::Found && *final(self) == *old(self),
            !finished && old(self).x_offset + old(self).batch <= 0xffff_ffff ==> {
                &&& final(self).y == old(self).y
                &&& final(self).x_offset == old(self).x_offset + old(self).batch
                &&& r == (SweepStep::Dispatch { y: final(self).y, x_offset: final(self).x_offset, new_y: false })
            },
            !finished && old(self).x_offset + old(self).batch > 0xffff_ffff && old(self).y < 0xffff_ffff ==> {
                &&& final(self).y == old(self).y + 1
                &&& final(self).x_offset == 0
                &&& r == (SweepStep::Dispatch { y: final(self).y, x_offset: 0, new_y: true })
            },
            !finished && old(self).x_offset + old(self).batch > 0xffff_ffff && old(self).y == 0xffff_ffff
                ==> r == SweepStep::Exhausted && *final(self) == *old(self),
    {
        if finished {
            return SweepStep::Found;
        }
        let reach: u64 = (self.x_offset as u64).saturating_add(self.batch);
        if reach <= 0xffff_ffff {
            self.x_offset = reach as u32;
            SweepStep::Dispatch { y: self.y, x_offset: self.x_offset, new_y: false }
        } else if self.y < 0xffff_ffff {
            self.y = self.y + 1;
            self.x_offset = 0;
            SweepStep::Dispatch { y: self.y, x_offset: 0, new_y: true }
        } else {
            SweepStep::Exhausted
        }
    }
}

} // verus!
