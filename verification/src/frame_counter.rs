//! Frame and frames-per-second counters for the status bar. The counter state
//! is owned by the caller and threaded through the free functions below.

use vstd::prelude::*;

verus! {

/// The render loop's counters: total frames drawn and the last measured rate.
#[derive(Clone, Copy, Debug)]
pub struct FrameCounter {
    pub frame_count: u64,
    pub fps: u64,
}

impl FrameCounter {
    pub fn new() -> (r: Self)
        ensures
            r.frame_count == 0,
            r.fps == 0,
    {
        FrameCounter { frame_count: 0, fps: 0 }
    }
}

pub fn increment_frame(counter: &mut FrameCounter)
    requires
        old(counter).frame_count < u64::MAX,
    ensures
        final(counter).frame_count == old(counter).frame_count + 1,
        final(counter).fps == old(counter).fps,
{
    counter.frame_count = counter.frame_count + 1;
}

pub fn get_frame_count(counter: &FrameCounter) -> (r: u64)
    ensures
        r == counter.frame_count,
{
    counter.frame_count
}

pub fn update_fps(counter: &mut FrameCounter, fps: u64)
    ensures
        final(counter).fps == fps,
        final(counter).frame_count == old(counter).frame_count,
{
    counter.fps = fps;
}

pub fn get_fps(counter: &FrameCounter) -> (r: u64)
    ensures
        r == counter.fps,
{
    counter.fps
}

} // verus!
