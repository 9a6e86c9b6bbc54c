//! What the player is asked to do in a frame, and what becomes of it.

use vstd::prelude::*;
use crate::collision::{advance, guarded, retreat, stands_clear};
use crate::direction::{Aim, Direction};
use crate::player::{Player, Pose};
use crate::tile_map::{Grid, NegativeRule, TileMap};

verus! {

/// One frame's request. The angles and distances are what the frame's time
/// allows at the configured speeds.
#[derive(Clone, Copy, Debug, PartialEq, Eq)]
pub enum Intent {
    /// Turn the heading down by the angle.
    TurnLeft(i64),
    /// Turn the heading up by the angle.
    TurnRight(i64),
    /// Move the distance along the heading.
    MoveForward(i64),
    /// Move the distance against the heading.
    MoveBack(i64),
    /// End the session.
    Quit,
    /// Nothing.
    Idle,
}

/// The pose after a turn by `da`; a turn that would leave the range of
/// headings is not made.
pub open spec fn turn_within_range(pose: Pose, da: int) -> Pose {
    if pose.turned(da).representable() {
        pose.turned(da)
    } else {
        pose
    }
}

/// The pose after a guarded move of `distance` along `facing`, forwards or
/// backwards; a move whose displacement no position can hold is not made.
pub open spec fn move_along(
    grid: Grid,
    pose: Pose,
    facing: Aim,
    distance: int,
    backwards: bool,
    rule: NegativeRule,
) -> Pose {
    match facing.displacement(distance) {
        Some((dx, dy)) => if backwards {
            guarded(grid, pose, -(dx as int), -(dy as int), rule)
        } else {
            guarded(grid, pose, dx as int, dy as int, rule)
        },
        None => pose,
    }
}

/// The pose that an intent leaves behind, for a player that faces `facing`.
pub open spec fn next_pose(
    grid: Grid,
    pose: Pose,
    intent: Intent,
    facing: Aim,
    rule: NegativeRule,
) -> Pose {
    match intent {
        Intent::TurnLeft(da) => turn_within_range(pose, -(da as int)),
        Intent::TurnRight(da) => turn_within_range(pose, da as int),
        Intent::MoveForward(distance) => move_along(grid, pose, facing, distance as int, false, rule),
        Intent::MoveBack(distance) => move_along(grid, pose, facing, distance as int, true, rule),
        Intent::Quit => pose,
        Intent::Idle => pose,
    }
}

/// No intent leads a player into a wall that did not start inside one.
pub proof fn lemma_next_pose_stands_clear(
    grid: Grid,
    pose: Pose,
    intent: Intent,
    facing: Aim,
    rule: NegativeRule,
)
    requires
        stands_clear(grid, pose, rule),
    ensures
        stands_clear(grid, next_pose(grid, pose, intent, facing, rule), rule),
{
}

/// Carries out one intent and says whether the session goes on. `facing`
/// must hold the sine and the cosine of the player's heading.
pub fn apply_intent(
    player: &mut Player,
    map: &TileMap,
    intent: Intent,
    facing: Direction,
    rule: NegativeRule,
) -> (running: bool)
    ensures
        running == !(intent is Quit),
        final(player)@ == next_pose(map@, old(player)@, intent, facing@, rule),
        stands_clear(map@, old(player)@, rule) ==> stands_clear(map@, final(player)@, rule),
{
    proof {
        player.lemma_representable();
    }
    match intent {
        Intent::TurnLeft(da) => {
            if player.a().checked_sub(da).is_some() {
                player.turn_left(da);
            }
            true
        },
        Intent::TurnRight(da) => {
            if player.a().checked_add(da).is_some() {
                player.turn_right(da);
            }
            true
        },
        Intent::MoveForward(distance) => {
            match facing.displacement(distance) {
                Some((dx, dy)) => {
                    advance(player, map, dx, dy, rule);
                },
                None => {},
            }
            true
        },
        Intent::MoveBack(distance) => {
            match facing.displacement(distance) {
                Some((dx, dy)) => {
                    retreat(player, map, dx, dy, rule);
                },
                None => {},
            }
            true
        },
        Intent::Quit => false,
        Intent::Idle => true,
    }
}

} // verus!
