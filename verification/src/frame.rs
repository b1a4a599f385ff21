//! Decisions of the frame loop that do not touch the GPU: how finished
//! frames are handed to the display, and the frame rate reported at exit.

use vstd::prelude::*;

verus! {

/// How finished frames are handed to the display.
#[derive(Debug, Clone, Copy, PartialEq, Eq, Structural)]
pub enum PresentMode {
    /// Shown at once, without waiting for the display.
    Immediate,
    /// Queued one deep; a newer frame replaces the waiting one.
    Mailbox,
    /// Queued in order and shown one per refresh.
    Fifo,
}

/// The mode to present with, given which of the two low-latency modes the
/// surface supports: immediate if it can, else mailbox if it can, else
/// first-in first-out, which every surface supports.
pub fn choose_present_mode(immediate: bool, mailbox: bool) -> (mode: PresentMode)
    ensures
        immediate ==> mode == PresentMode::Immediate,
        !immediate && mailbox ==> mode == PresentMode::Mailbox,
        !immediate && !mailbox ==> mode == PresentMode::Fifo,
{
    if immediate {
        PresentMode::Immediate
    } else if mailbox {
        PresentMode::Mailbox
    } else {
        PresentMode::Fifo
    }
}

/// The average frame rate over a run: the frame counter divided by the whole
/// seconds the run took, rounded down.
pub fn average_fps(frame_counter: u64, seconds: u64) -> (fps: u64)
    requires
        seconds > 0,
    ensures
        fps == frame_counter / seconds,
{
    frame_counter / seconds
}

} // verus!
