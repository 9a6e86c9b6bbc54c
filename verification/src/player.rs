//! The player's pose and the primitives that change it.
//!
//! A player knows nothing of the map: whether a move is allowed is decided in
//! [`crate::collision`].

use vstd::prelude::*;

verus! {

/// The mathematical model of a player: a position in fixed point and a
/// heading in fixed-point radians.
pub ghost struct Pose {
    pub x: int,
    pub y: int,
    pub heading: int,
}

impl Pose {
    /// The pose after a displacement by `(dx, dy)`.
    pub open spec fn shifted(self, dx: int, dy: int) -> Pose {
        Pose { x: self.x + dx, y: self.y + dy, heading: self.heading }
    }

    /// The pose after a turn by `da`.
    pub open spec fn turned(self, da: int) -> Pose {
        Pose { x: self.x, y: self.y, heading: self.heading + da }
    }

    /// Position and heading are numbers that a player can hold.
    pub open spec fn representable(self) -> bool {
        &&& i64::MIN <= self.x <= i64::MAX
        &&& i64::MIN <= self.y <= i64::MAX
        &&& i64::MIN <= self.heading <= i64::MAX
    }
}

/// A displacement that is taken back leaves the pose as it was, exactly.
pub proof fn lemma_move_back_undoes_move_forward(pose: Pose, dx: int, dy: int)
    ensures
        pose.shifted(dx, dy).shifted(-dx, -dy) == pose,
        pose.shifted(-dx, -dy).shifted(dx, dy) == pose,
{
}

/// A turn that is taken back leaves the pose as it was, exactly.
pub proof fn lemma_turn_right_undoes_turn_left(pose: Pose, da: int)
    ensures
        pose.turned(-da).turned(da) == pose,
        pose.turned(da).turned(-da) == pose,
{
}

/// Where the player stands and where it looks.
#[derive(Debug)]
pub struct Player {
    x: i64,
    y: i64,
    a: i64,
}

impl View for Player {
    type V = Pose;

    closed spec fn view(&self) -> Pose {
        Pose { x: self.x as int, y: self.y as int, heading: self.a as int }
    }
}

impl Default for Player {
    /// A player at the origin with heading zero.
    fn default() -> (r: Player)
        ensures
            r@ == (Pose { x: 0, y: 0, heading: 0 }),
    {
        Player { x: 0, y: 0, a: 0 }
    }
}

impl Player {
    /// A player at `(x, y)` with heading `a`.
    pub fn new(x: i64, y: i64, a: i64) -> (r: Player)
        ensures
            r@ == (Pose { x: x as int, y: y as int, heading: a as int }),
    {
        Player { x, y, a }
    }

    /// The first coordinate of the position, which counts rows.
    pub fn x(&self) -> (r: i64)
        ensures
            r == self@.x,
    {
        self.x
    }

    /// The second coordinate of the position, which counts columns.
    pub fn y(&self) -> (r: i64)
        ensures
            r == self@.y,
    {
        self.y
    }

    /// The heading, in fixed-point radians.
    pub fn a(&self) -> (r: i64)
        ensures
            r == self@.heading,
    {
        self.a
    }

    /// Every pose of a player is representable.
    pub proof fn lemma_representable(&self)
        ensures
            self@.representable(),
    {
    }

    /// Commits the displacement `(dx, dy)`.
    pub fn move_forward(&mut self, dx: i64, dy: i64)
        requires
            old(self)@.shifted(dx as int, dy as int).representable(),
        ensures
            final(self)@ == old(self)@.shifted(dx as int, dy as int),
    {
        self.x = self.x + dx;
        self.y = self.y + dy;
    }

    /// Takes the displacement `(dx, dy)` back: the exact negation of
    /// `move_forward` with the same numbers.
    pub fn move_back(&mut self, dx: i64, dy: i64)
        requires
            old(self)@.shifted(-(dx as int), -(dy as int)).representable(),
        ensures
            final(self)@ == old(self)@.shifted(-(dx as int), -(dy as int)),
    {
        self.x = self.x - dx;
        self.y = self.y - dy;
    }

    /// Turns the heading down by `da`.
    pub fn turn_left(&mut self, da: i64)
        requires
            old(self)@.turned(-(da as int)).representable(),
        ensures
            final(self)@ == old(self)@.turned(-(da as int)),
    {
        self.a = self.a - da;
    }

    /// Turns the heading up by `da`.
    pub fn turn_right(&mut self, da: i64)
        requires
            old(self)@.turned(da as int).representable(),
        ensures
            final(self)@ == old(self)@.turned(da as int),
    {
        self.a = self.a + da;
    }
}

} // verus!
