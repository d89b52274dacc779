//! The display updater: from the published estimate to a frame of the
//! 27-frame gradient table.

use vstd::prelude::*;

verus! {

/// Index of the last frame of the gradient table ("farthest / no signal").
pub const LAST_FRAME: u8 = 26;

/// The frame that shows `estimate`: the estimate itself, clamped to the table.
pub open spec fn frame_of(estimate: u8) -> u8 {
    if estimate < LAST_FRAME { estimate } else { LAST_FRAME }
}

/// The frame index for an estimate: `min(26, estimate)`.
pub fn frame_index(estimate: u8) -> (r: u8)
    ensures
        r == frame_of(estimate),
{
    if estimate < LAST_FRAME {
        estimate
    } else {
        LAST_FRAME
    }
}

/// One tick of the display timer. `last_shown` is the frame loaded last;
/// it becomes the frame for `estimate`. The result is the frame to load into
/// the display driver, or `None` when it is already shown. The driver's
/// multiplexing step runs on every tick either way.
pub fn timer1(last_shown: &mut u8, estimate: u8) -> (r: Option<u8>)
    ensures
        *final(last_shown) == frame_of(estimate),
        r == (if *old(last_shown) != frame_of(estimate) {
            Some(frame_of(estimate))
        } else {
            None
        }),
{
    let frame = frame_index(estimate);
    let last = *last_shown;
    *last_shown = frame;
    if last != frame {
        Some(frame)
    } else {
        None
    }
}

/// Every estimate of 26 or more shows the last frame, an estimate of 0 the
/// first, and no estimate selects a frame outside the table.
pub proof fn lemma_frame_clamp(estimate: u8)
    ensures
        estimate >= LAST_FRAME ==> frame_of(estimate) == LAST_FRAME,
        estimate == 0 ==> frame_of(estimate) == 0,
        frame_of(estimate) <= LAST_FRAME,
{
}

} // verus!
