use vstd::prelude::*;
use crate::kernel::Kernel;

verus! {

/// The kernel tick counter.
pub struct Systick;

impl Systick {
    /// Sets the tick counter to 0.
    pub fn init(k: &mut Kernel)
        requires
            old(k).wf(),
        ensures
            *final(k) == (Kernel { time: 0, ..*old(k) }),
    {
        k.time = 0;
    }

    /// Counts one tick.
    pub fn systick_inc(k: &mut Kernel)
        requires
            old(k).wf(),
            old(k).time < usize::MAX,
        ensures
            *final(k) == (Kernel { time: (old(k).time + 1) as usize, ..*old(k) }),
    {
        k.time = k.time + 1;
    }

    /// The number of ticks counted.
    pub fn get_current_time(k: &Kernel) -> (r: usize)
        ensures
            r == k.time,
    {
        k.time
    }

    /// Advances the tick counter by `ms_time` ticks and returns the new count.
    pub fn add_current_time(k: &mut Kernel, ms_time: usize) -> (r: usize)
        requires
            old(k).wf(),
            old(k).time + ms_time <= usize::MAX,
        ensures
            r == old(k).time + ms_time,
            *final(k) == (Kernel { time: r, ..*old(k) }),
    {
        k.time = k.time + ms_time;
        k.time
    }
}

} // verus!
