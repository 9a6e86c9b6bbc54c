//! What the engine reports about a frame besides its glyphs: where the player
//! stands, where it looks, and how many frames a second the last frame's
//! time amounts to.

use vstd::prelude::*;
use crate::fixed::ONE;
use crate::player::Player;

verus! {

/// The numbers of one frame, in fixed point.
#[derive(Clone, Copy, Debug, PartialEq, Eq)]
pub struct Telemetry {
    pub x: i64,
    pub y: i64,
    pub heading: i64,
    /// `None` for a frame that took no time.
    pub frames_per_second: Option<i64>,
}

/// The number of frames in a second, each of which takes `elapsed` seconds:
/// one over `elapsed`, rounded down, and nothing where `elapsed` is not
/// positive.
pub open spec fn frame_rate(elapsed: int) -> Option<i64> {
    if elapsed > 0 {
        Some(((ONE * ONE) / elapsed) as i64)
    } else {
        None
    }
}

/// The numbers of a frame that took `elapsed` seconds.
pub fn telemetry(player: &Player, elapsed: i64) -> (t: Telemetry)
    ensures
        t.x == player@.x,
        t.y == player@.y,
        t.heading == player@.heading,
        t.frames_per_second == frame_rate(elapsed as int),
{
    let frames_per_second = if elapsed > 0 {
        assert(0 <= (ONE * ONE) / (elapsed as int) <= 0x1_0000_0000) by (nonlinear_arith)
            requires
                ONE * ONE == 0x1_0000_0000,
                elapsed > 0,
        ;
        Some((ONE * ONE) / elapsed)
    } else {
        None
    };
    Telemetry { x: player.x(), y: player.y(), heading: player.a(), frames_per_second }
}

} // verus!
