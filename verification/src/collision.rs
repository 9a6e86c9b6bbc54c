//! The collision guard: moves that the map allows are kept, all others are
//! taken back.
//!
//! A move is tried in three steps: the displacement is applied to the player,
//! the map is sampled at the player's new cell, and unless that cell is an
//! empty cell of the grid the same displacement is taken back. A wall stops a
//! move, and so does the edge of the grid, and so does a target that no
//! position can hold.

use vstd::prelude::*;
use crate::player::{Player, Pose};
use crate::tile_map::{Grid, NegativeRule, Probe, TileMap};

verus! {

/// The displacement `(dx, dy)` leads the pose into an empty cell of the grid.
pub open spec fn can_enter(grid: Grid, pose: Pose, dx: int, dy: int, rule: NegativeRule) -> bool {
    let target = pose.shifted(dx, dy);
    target.representable() && grid.probe(target.x, target.y, rule) is Empty
}

/// The pose after the guard has tried the displacement `(dx, dy)`.
pub open spec fn guarded(grid: Grid, pose: Pose, dx: int, dy: int, rule: NegativeRule) -> Pose {
    if can_enter(grid, pose, dx, dy, rule) {
        pose.shifted(dx, dy)
    } else {
        pose
    }
}

/// The pose does not lie in a wall cell.
pub open spec fn stands_clear(grid: Grid, pose: Pose, rule: NegativeRule) -> bool {
    !(grid.probe(pose.x, pose.y, rule) is Wall)
}

/// The pose after the guard has tried each of `moves` in turn.
pub open spec fn walk(grid: Grid, pose: Pose, moves: Seq<(int, int)>, rule: NegativeRule) -> Pose
    decreases moves.len(),
{
    if moves.len() == 0 {
        pose
    } else {
        guarded(
            grid,
            walk(grid, pose, moves.drop_last(), rule),
            moves.last().0,
            moves.last().1,
            rule,
        )
    }
}

/// One guarded move never leads into a wall cell.
pub proof fn lemma_guarded_stands_clear(
    grid: Grid,
    pose: Pose,
    dx: int,
    dy: int,
    rule: NegativeRule,
)
    requires
        stands_clear(grid, pose, rule),
    ensures
        stands_clear(grid, guarded(grid, pose, dx, dy, rule), rule),
{
}

/// A player that does not start inside a wall is never left inside one: after
/// each of any sequence of guarded moves it stands outside every wall cell.
pub proof fn lemma_walk_stands_clear(
    grid: Grid,
    pose: Pose,
    moves: Seq<(int, int)>,
    rule: NegativeRule,
)
    requires
        stands_clear(grid, pose, rule),
    ensures
        forall|k: int|
            0 <= k <= moves.len() ==> stands_clear(
                grid,
                #[trigger] walk(grid, pose, moves.take(k), rule),
                rule,
            ),
    decreases moves.len(),
{
    assert forall|k: int| 0 <= k <= moves.len() implies stands_clear(
        grid,
        #[trigger] walk(grid, pose, moves.take(k), rule),
        rule,
    ) by {
        if k == 0 {
        } else {
            let prefix = moves.take(k);
            lemma_walk_stands_clear(grid, pose, prefix.drop_last(), rule);
            assert(prefix.drop_last().take(k - 1) =~= prefix.drop_last());
            lemma_guarded_stands_clear(
                grid,
                walk(grid, pose, prefix.drop_last(), rule),
                prefix.last().0,
                prefix.last().1,
                rule,
            );
        }
    }
}

/// Tries to move the player by `(dx, dy)`, and says whether the move was
/// kept.
pub fn advance(player: &mut Player, map: &TileMap, dx: i64, dy: i64, rule: NegativeRule) -> (moved:
    bool)
    ensures
        moved == can_enter(map@, old(player)@, dx as int, dy as int, rule),
        final(player)@ == guarded(map@, old(player)@, dx as int, dy as int, rule),
        stands_clear(map@, old(player)@, rule) ==> stands_clear(map@, final(player)@, rule),
{
    proof {
        player.lemma_representable();
    }
    match (player.x().checked_add(dx), player.y().checked_add(dy)) {
        (Some(_), Some(_)) => {
            player.move_forward(dx, dy);
            match map.probe(player.x(), player.y(), rule) {
                Probe::Empty => true,
                _ => {
                    player.move_back(dx, dy);
                    false
                },
            }
        },
        _ => false,
    }
}

/// Tries to move the player by `(-dx, -dy)`, and says whether the move was
/// kept.
pub fn retreat(player: &mut Player, map: &TileMap, dx: i64, dy: i64, rule: NegativeRule) -> (moved:
    bool)
    ensures
        moved == can_enter(map@, old(player)@, -(dx as int), -(dy as int), rule),
        final(player)@ == guarded(map@, old(player)@, -(dx as int), -(dy as int), rule),
        stands_clear(map@, old(player)@, rule) ==> stands_clear(map@, final(player)@, rule),
{
    proof {
        player.lemma_representable();
    }
    match (player.x().checked_sub(dx), player.y().checked_sub(dy)) {
        (Some(_), Some(_)) => {
            player.move_back(dx, dy);
            match map.probe(player.x(), player.y(), rule) {
                Probe::Empty => true,
                _ => {
                    player.move_forward(dx, dy);
                    false
                },
            }
        },
        _ => false,
    }
}

} // verus!
