//! Frame selection for a looping animation, driven by a repeating timer.

use vstd::prelude::*;

use crate::timer::{Duration, Timer};

verus! {

/// A looping animation of `len` frames, advancing one frame every time its
/// timer runs out.
#[derive(Clone, Copy, Debug)]
pub struct Animation {
    pub current_frame: usize,
    len: usize,
    timer: Timer,
}

impl Animation {
    pub closed spec fn spec_len(self) -> usize {
        self.len
    }

    pub closed spec fn spec_timer(self) -> Timer {
        self.timer
    }

    pub closed spec fn spec_current_frame(self) -> usize {
        self.current_frame
    }

    /// The animation [`Animation::new`] returns: at the first frame, a
    /// full period ahead of it.
    pub closed spec fn spec_new(len: usize, frame_time: Duration) -> Animation {
        Animation { current_frame: 0, len, timer: Timer::spec_new(frame_time) }
    }

    /// The animation [`Animation::update`] leaves behind: the clock
    /// advanced, and the frame stepped (wrapping) when the clock ran out.
    pub closed spec fn spec_updated(self, elapsed: u64) -> Animation {
        let timer = self.timer.spec_updated(elapsed);
        Animation {
            current_frame: if timer.spec_finished() {
                (((self.current_frame + 1) as int) % (self.len as int)) as usize
            } else {
                self.current_frame
            },
            len: self.len,
            timer,
        }
    }

    /// The animation invariant: at least one frame, a running period, and
    /// a current frame inside the loop.
    pub open spec fn wf(self) -> bool {
        self.spec_len() > 0 && self.spec_current_frame() < self.spec_len() && self.spec_timer().spec_total()
            > 0
    }

    /// An animation of `len` frames showing each frame for `frame_time`.
    pub fn new(len: usize, frame_time: Duration) -> (r: Self)
        requires
            len > 0,
            frame_time.millis > 0,
        ensures
            r == Animation::spec_new(len, frame_time),
            r.spec_current_frame() == 0,
            r.spec_len() == len,
            r.spec_timer().spec_total() == frame_time.millis,
            r.spec_timer().spec_remaining() == frame_time.millis,
            !r.spec_timer().spec_finished(),
            r.wf(),
    {
        Animation { current_frame: 0, len, timer: Timer::new(frame_time) }
    }

    /// Advances the animation clock by `delta_time`; when the frame timer
    /// runs out, steps to the next frame, wrapping at the end of the loop.
    pub fn update(&mut self, delta_time: Duration)
        requires
            old(self).wf(),
            delta_time.millis + old(self).spec_timer().spec_total() <= u64::MAX,
        ensures
            *final(self) == old(self).spec_updated(delta_time.millis),
            final(self).wf(),
            final(self).spec_len() == old(self).spec_len(),
            final(self).spec_timer().spec_total() == old(self).spec_timer().spec_total(),
            final(self).spec_timer().spec_finished() == (delta_time.millis >= old(
                self,
            ).spec_timer().spec_remaining()),
            !final(self).spec_timer().spec_finished() ==> final(self).spec_timer().spec_remaining()
                == old(self).spec_timer().spec_remaining() - delta_time.millis,
            final(self).spec_timer().spec_finished() ==> final(self).spec_current_frame() == (old(
                self,
            ).spec_current_frame() + 1) % (old(self).spec_len() as int),
            !final(self).spec_timer().spec_finished() ==> final(self).spec_current_frame() == old(
                self,
            ).spec_current_frame(),
    {
        self.timer.update(delta_time);
        if self.timer.is_finished() {
            self.current_frame = (self.current_frame + 1) % self.len;
        }
    }
}

} // verus!
