use vstd::prelude::*;

verus! {

/// The frame interval at start, in milliseconds.
pub const INITIAL_FRAME_INTERVAL: u64 = 41;

/// How much one speed-up or slow-down request changes the frame interval.
pub const FRAME_STEP: u64 = 10;

/// The interval after a speed-up request: one step shorter, unless that would
/// bring it to one step or below.
pub open spec fn sped_up(interval: u64) -> u64 {
    if interval > 2 * FRAME_STEP {
        (interval - FRAME_STEP) as u64
    } else {
        interval
    }
}

/// The interval after a slow-down request: one step longer, where that fits.
pub open spec fn slowed_down(interval: u64) -> u64 {
    if interval <= u64::MAX - FRAME_STEP {
        (interval + FRAME_STEP) as u64
    } else {
        interval
    }
}

/// The interval after `n` speed-up requests in a row.
pub open spec fn sped_up_times(interval: u64, n: nat) -> u64
    decreases n,
{
    if n == 0 {
        interval
    } else {
        sped_up(sped_up_times(interval, (n - 1) as nat))
    }
}

/// However many speed-up requests come, the interval stays above one step, and
/// it only ever moves down by whole steps.
pub proof fn lemma_speed_up_floor(interval: u64, n: nat)
    requires
        interval > FRAME_STEP,
    ensures
        sped_up_times(interval, n) > FRAME_STEP,
        sped_up_times(interval, n) <= interval,
        sped_up_times(interval, n) <= 2 * FRAME_STEP ==> sped_up(sped_up_times(interval, n))
            == sped_up_times(interval, n),
    decreases n,
{
    if n > 0 {
        lemma_speed_up_floor(interval, (n - 1) as nat);
    }
}

/// The frame interval: how long to wait for input before the next frame.
pub struct Timing {
    frame_interval: u64,
}

impl View for Timing {
    type V = u64;

    closed spec fn view(&self) -> u64 {
        self.frame_interval
    }
}

impl Timing {
    /// The interval never reaches one step or below.
    pub open spec fn wf(&self) -> bool {
        self@ > FRAME_STEP
    }

    pub fn new() -> (r: Timing)
        ensures
            r@ == INITIAL_FRAME_INTERVAL,
            r.wf(),
    {
        Timing { frame_interval: INITIAL_FRAME_INTERVAL }
    }

    pub fn frame_interval(&self) -> (r: u64)
        ensures
            r == self@,
    {
        self.frame_interval
    }

    /// Shortens the interval by one step, unless that would bring it to one step
    /// or below.
    pub fn speed_up(&mut self)
        requires
            old(self).wf(),
        ensures
            final(self)@ == sped_up(old(self)@),
            final(self).wf(),
    {
        if self.frame_interval > 2 * FRAME_STEP {
            self.frame_interval = self.frame_interval - FRAME_STEP;
        }
    }

    /// Lengthens the interval by one step.
    pub fn slow_down(&mut self)
        requires
            old(self).wf(),
        ensures
            final(self)@ == slowed_down(old(self)@),
            final(self).wf(),
    {
        if self.frame_interval <= u64::MAX - FRAME_STEP {
            self.frame_interval = self.frame_interval + FRAME_STEP;
        }
    }
}

} // verus!
