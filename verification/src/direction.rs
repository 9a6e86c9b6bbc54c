//! Bearings, given by the sine and the cosine of an angle.
//!
//! The engine computes no sine and no cosine. Whoever knows an angle hands in
//! the two numbers, in fixed point, and the engine projects lengths with them:
//! the sine moves a point along the first coordinate, the cosine along the
//! second. Rays and moves go through the same projection, so they agree on
//! where a bearing leads.
//!
//! The engine takes no pair of numbers for a bearing that cannot be the sine
//! and the cosine of one angle: their squares must add up to one, as nearly
//! as rounding to fixed point allows.

use vstd::prelude::*;
use crate::fixed::{fitted, lemma_product_bounded, scale, scaled, ONE};

verus! {

/// The mathematical model of a bearing.
pub ghost struct Aim {
    pub sin: int,
    pub cos: int,
}

/// How far the squared length of a bearing may lie from `ONE * ONE`: three
/// times `ONE`. Rounding a sine and a cosine to fixed point, up, down or to
/// the nearest unit, moves the sum of their squares by no more than that
/// (`lemma_rounded_bearing_is_unit`).
pub const UNIT_SLACK: i64 = 196608;

impl Aim {
    /// Sine and cosine lie between `-ONE` and `ONE`, and the bearing is one
    /// long, within `UNIT_SLACK`.
    pub open spec fn unit(self) -> bool {
        &&& -ONE <= self.sin <= ONE
        &&& -ONE <= self.cos <= ONE
        &&& -UNIT_SLACK <= self.sin * self.sin + self.cos * self.cos - ONE * ONE <= UNIT_SLACK
    }

    /// Where `distance` along this bearing leads, from the origin.
    pub open spec fn reach(self, distance: int) -> (int, int) {
        (scaled(self.sin, distance), scaled(self.cos, distance))
    }

    /// `reach`, where both of its components are `i64`.
    pub open spec fn displacement(self, distance: int) -> Option<(i64, i64)> {
        match (fitted(self.reach(distance).0), fitted(self.reach(distance).1)) {
            (Some(dx), Some(dy)) => Some((dx, dy)),
            _ => None,
        }
    }
}

/// The sine and the cosine of an angle: a bearing of length one.
#[derive(Clone, Copy, Debug)]
pub struct Direction {
    sin: i64,
    cos: i64,
}

impl View for Direction {
    type V = Aim;

    closed spec fn view(&self) -> Aim {
        Aim { sin: self.sin as int, cos: self.cos as int }
    }
}

/// A length scaled by a factor of at most one is no longer than before.
pub proof fn lemma_scaled_within(factor: int, length: int)
    requires
        -ONE <= factor <= ONE,
    ensures
        length >= 0 ==> -length <= scaled(factor, length) <= length,
        length <= 0 ==> length <= scaled(factor, length) <= -length,
{
    assert(length >= 0 ==> -(ONE * length) <= factor * length <= ONE * length)
        by (nonlinear_arith)
        requires
            -ONE <= factor <= ONE,
    ;
    assert(length <= 0 ==> ONE * length <= factor * length <= -(ONE * length))
        by (nonlinear_arith)
        requires
            -ONE <= factor <= ONE,
    ;
}

/// The sum of two numbers that are not negative, squared, is at most twice
/// the sum of their squares.
proof fn lemma_sum_squared(a: int, b: int)
    by (nonlinear_arith)
    ensures
        (a + b) * (a + b) <= 2 * (a * a + b * b),
{
}

/// Of two numbers that are not negative, the one with the smaller square is
/// the smaller.
proof fn lemma_square_order(a: int, b: int)
    by (nonlinear_arith)
    requires
        0 <= a,
        0 <= b,
        a * a <= b * b,
    ensures
        a <= b,
{
}

/// Rounding leaves a bearing its length. Let `big_sin / n` and `big_cos / n`
/// be the sine and the cosine of an angle, in units of fixed point: a point
/// of the circle of radius `ONE`. Then `sin` and `cos`, each less than one
/// unit away from them, make a bearing that `Direction::new` takes.
pub proof fn lemma_rounded_bearing_is_unit(big_sin: int, big_cos: int, n: int, sin: int, cos: int)
    requires
        0 < n,
        big_sin * big_sin + big_cos * big_cos == (n * ONE) * (n * ONE),
        -n < n * sin - big_sin < n,
        -n < n * cos - big_cos < n,
    ensures
        (Aim { sin, cos }).unit(),
{
    let a = if big_sin >= 0 {
        big_sin
    } else {
        -big_sin
    };
    let b = if big_cos >= 0 {
        big_cos
    } else {
        -big_cos
    };
    let ds = n * sin - big_sin;
    let dc = n * cos - big_cos;
    let radius = n * ONE;
    assert(a * a == big_sin * big_sin && b * b == big_cos * big_cos) by (nonlinear_arith)
        requires
            a == big_sin || a == -big_sin,
            b == big_cos || b == -big_cos,
    ;
    // each coordinate lies within the radius
    assert(a * a <= radius * radius && b * b <= radius * radius) by (nonlinear_arith)
        requires
            a * a + b * b == radius * radius,
    ;
    assert(0 <= radius) by (nonlinear_arith)
        requires
            radius == n * ONE,
            0 < n,
    ;
    lemma_square_order(a, radius);
    lemma_square_order(b, radius);
    assert(-ONE <= sin <= ONE && -ONE <= cos <= ONE) by (nonlinear_arith)
        requires
            0 < n,
            -(n * ONE) <= big_sin <= n * ONE,
            -(n * ONE) <= big_cos <= n * ONE,
            -n < n * sin - big_sin < n,
            -n < n * cos - big_cos < n,
    ;
    // the two coordinates together lie within the radius times the root of two
    let bound = n * (3 * ONE - 2);
    lemma_sum_squared(a, b);
    assert(bound * bound >= 8 * (radius * radius)) by (nonlinear_arith)
        requires
            bound == n * (3 * ONE - 2),
            radius == n * ONE,
            ONE == 65536,
    ;
    assert((2 * (a + b)) * (2 * (a + b)) <= bound * bound) by (nonlinear_arith)
        requires
            (a + b) * (a + b) <= 2 * (a * a + b * b),
            a * a + b * b == radius * radius,
            bound * bound >= 8 * (radius * radius),
    ;
    assert(0 <= bound) by (nonlinear_arith)
        requires
            bound == n * (3 * ONE - 2),
            0 < n,
            ONE == 65536,
    ;
    lemma_square_order(2 * (a + b), bound);
    // what rounding adds to the squared length
    assert(-(n * a) <= big_sin * ds <= n * a) by (nonlinear_arith)
        requires
            a == big_sin || a == -big_sin,
            0 <= a,
            -n < ds < n,
    ;
    assert(-(n * b) <= big_cos * dc <= n * b) by (nonlinear_arith)
        requires
            b == big_cos || b == -big_cos,
            0 <= b,
            -n < dc < n,
    ;
    assert(0 <= ds * ds <= n * n && 0 <= dc * dc <= n * n) by (nonlinear_arith)
        requires
            -n < ds < n,
            -n < dc < n,
    ;
    assert(n * (2 * (a + b)) <= n * bound) by (nonlinear_arith)
        requires
            2 * (a + b) <= bound,
            0 < n,
    ;
    assert(n * (2 * (a + b)) == 2 * (n * a) + 2 * (n * b)) by (nonlinear_arith);
    assert(n * bound == (n * n) * (3 * ONE - 2)) by (nonlinear_arith)
        requires
            bound == n * (3 * ONE - 2),
    ;
    let excess = sin * sin + cos * cos - ONE * ONE;
    let ns = n * sin;
    let nc = n * cos;
    assert(ns * ns == big_sin * big_sin + 2 * (big_sin * ds) + ds * ds) by (nonlinear_arith)
        requires
            ns == big_sin + ds,
    ;
    assert(nc * nc == big_cos * big_cos + 2 * (big_cos * dc) + dc * dc) by (nonlinear_arith)
        requires
            nc == big_cos + dc,
    ;
    assert(ns * ns == (n * n) * (sin * sin)) by (nonlinear_arith)
        requires
            ns == n * sin,
    ;
    assert(nc * nc == (n * n) * (cos * cos)) by (nonlinear_arith)
        requires
            nc == n * cos,
    ;
    assert(radius * radius == (n * n) * (ONE * ONE)) by (nonlinear_arith)
        requires
            radius == n * ONE,
    ;
    assert((n * n) * excess == (n * n) * (sin * sin) + (n * n) * (cos * cos) - (n * n) * (ONE
        * ONE)) by (nonlinear_arith)
        requires
            excess == sin * sin + cos * cos - ONE * ONE,
    ;
    assert((n * n) * excess == 2 * (big_sin * ds) + 2 * (big_cos * dc) + ds * ds + dc * dc);
    assert(-((n * n) * (3 * ONE)) <= (n * n) * excess <= (n * n) * (3 * ONE)) by (nonlinear_arith)
        requires
            (n * n) * excess == 2 * (big_sin * ds) + 2 * (big_cos * dc) + ds * ds + dc * dc,
            -(n * a) <= big_sin * ds <= n * a,
            -(n * b) <= big_cos * dc <= n * b,
            0 <= ds * ds <= n * n,
            0 <= dc * dc <= n * n,
            2 * (n * a) + 2 * (n * b) <= (n * n) * (3 * ONE - 2),
    ;
    assert(-(3 * ONE) <= excess <= 3 * ONE) by (nonlinear_arith)
        requires
            -((n * n) * (3 * ONE)) <= (n * n) * excess <= (n * n) * (3 * ONE),
            0 < n,
    ;
}

impl Direction {
    #[verifier::type_invariant]
    spec fn well_formed(self) -> bool {
        self@.unit()
    }

    /// The bearing with the given sine and cosine; `None` where the two do
    /// not make a bearing of length one: where one of them lies outside
    /// `-ONE ..= ONE`, or the sum of their squares lies farther than
    /// `UNIT_SLACK` from `ONE * ONE`.
    pub fn new(sin: i64, cos: i64) -> (r: Option<Direction>)
        ensures
            r is Some <==> (Aim { sin: sin as int, cos: cos as int }).unit(),
            r matches Some(d) ==> d@ == (Aim { sin: sin as int, cos: cos as int }),
    {
        if -ONE <= sin && sin <= ONE && -ONE <= cos && cos <= ONE {
            proof {
                lemma_product_bounded(sin as int, sin as int, 65536, 65536);
                lemma_product_bounded(cos as int, cos as int, 65536, 65536);
            }
            let excess: i64 = sin * sin + cos * cos - ONE * ONE;
            if -UNIT_SLACK <= excess && excess <= UNIT_SLACK {
                Some(Direction { sin, cos })
            } else {
                None
            }
        } else {
            None
        }
    }

    /// The sine of the bearing.
    pub fn sin(&self) -> (r: i64)
        ensures
            r == self@.sin,
            self@.unit(),
    {
        proof {
            use_type_invariant(self);
        }
        self.sin
    }

    /// The cosine of the bearing.
    pub fn cos(&self) -> (r: i64)
        ensures
            r == self@.cos,
            self@.unit(),
    {
        proof {
            use_type_invariant(self);
        }
        self.cos
    }

    /// The displacement that `distance` along this bearing makes: the sine
    /// times the distance along the first coordinate, the cosine times the
    /// distance along the second, each rounded down to the next unit. `None`
    /// where a component is no `i64`, which only the most negative distance
    /// can bring about.
    pub fn displacement(&self, distance: i64) -> (r: Option<(i64, i64)>)
        ensures
            r == self@.displacement(distance as int),
            distance > i64::MIN ==> r is Some,
    {
        proof {
            use_type_invariant(self);
            lemma_scaled_within(self.sin as int, distance as int);
            lemma_scaled_within(self.cos as int, distance as int);
        }
        let dx: i128 = scale(self.sin, distance);
        let dy: i128 = scale(self.cos, distance);
        if dx <= i64::MAX as i128 && dy <= i64::MAX as i128 {
            Some((dx as i64, dy as i64))
        } else {
            None
        }
    }
}

} // verus!
