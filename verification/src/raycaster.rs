//! Ray marching against the tile map.
//!
//! A ray leaves its origin along a bearing and is sampled at whole multiples
//! of the step size, the first sample one step away from the origin. The
//! first sample, short of the maximum depth, that does not lie in an empty
//! cell of the grid stops the ray: in a wall cell the ray has hit at that
//! distance, outside the grid it counts as a hit at the maximum depth. A ray
//! that is never stopped ends at the maximum depth.

use vstd::prelude::*;
use crate::config::{Config, Settings};
use crate::direction::{lemma_scaled_within, Aim, Direction};
use crate::fixed::{lemma_product_bounded, scale, Ratio, ONE};
use crate::tile_map::{cell_containing, cell_of_wide, Grid, NegativeRule, Probe, TileMap};

verus! {

/// The mathematical model of what a ray found.
pub ghost struct Sight {
    pub distance: int,
    pub boundary: bool,
}

/// What a ray found: the distance to the wall, at most the maximum depth, and
/// whether the ray struck the wall near one of the cell's corners.
#[derive(Clone, Copy, Debug, PartialEq, Eq)]
pub struct RayResult {
    pub distance: i64,
    pub boundary: bool,
}

impl View for RayResult {
    type V = Sight;

    open spec fn view(&self) -> Sight {
        Sight { distance: self.distance as int, boundary: self.boundary }
    }
}

/// The vector from the origin `(ox, oy)` to corner `i` of the cell
/// `(row, col)`. The corners are counted row first: `0` and `1` on the cell's
/// own row, `2` and `3` on the next.
pub open spec fn corner_vector(ox: int, oy: int, row: int, col: int, i: int) -> (int, int) {
    ((row + i / 2) * ONE - ox, (col + i % 2) * ONE - oy)
}

/// The square of the length of `v`.
pub open spec fn length_squared(v: (int, int)) -> int {
    v.0 * v.0 + v.1 * v.1
}

/// The square of the distance from the origin `(ox, oy)` to corner `i` of the
/// cell `(row, col)`.
pub open spec fn corner_distance_squared(ox: int, oy: int, row: int, col: int, i: int) -> int {
    length_squared(corner_vector(ox, oy, row, col, i))
}

/// Corner `i` of the cell is one of the three nearest to the origin: some
/// other corner lies farther away, or as far away and later in the count.
pub open spec fn near_corner(ox: int, oy: int, row: int, col: int, i: int) -> bool {
    exists|j: int|
        0 <= j < 4 && {
            let di = corner_distance_squared(ox, oy, row, col, i);
            let dj = #[trigger] corner_distance_squared(ox, oy, row, col, j);
            di < dj || (di == dj && i < j)
        }
}

/// The bearing `eye` points at the end of `v` within the angle whose tangent
/// is `tolerance`: the part of `v` along the bearing is positive, and the part
/// across it is less than `tolerance` times as long. A vector of length zero
/// is pointed at by no bearing.
pub open spec fn sights(eye: Aim, v: (int, int), tolerance: Ratio) -> bool {
    let along = eye.sin * v.0 + eye.cos * v.1;
    let across = eye.sin * v.1 - eye.cos * v.0;
    let width = if across >= 0 {
        across
    } else {
        -across
    };
    along > 0 && tolerance.exceeds(width, along)
}

/// A ray from `(ox, oy)` along `eye` that hits the cell `(row, col)` has
/// struck a boundary: it points, within the tolerance, at one of the three
/// corners of the cell that are nearest to its origin.
pub open spec fn marks_boundary(
    ox: int,
    oy: int,
    eye: Aim,
    row: int,
    col: int,
    tolerance: Ratio,
) -> bool {
    exists|i: int|
        0 <= i < 4 && near_corner(ox, oy, row, col, i) && #[trigger] sights(
            eye,
            corner_vector(ox, oy, row, col, i),
            tolerance,
        )
}

/// A corner that lies at the origin of a ray is pointed at by no bearing, so
/// it never marks a boundary.
pub proof fn lemma_corner_at_origin_is_skipped(eye: Aim, tolerance: Ratio)
    ensures
        !sights(eye, (0, 0), tolerance),
{
}

/// A ray that points exactly at one of the three nearest corners of the cell
/// it hits has struck a boundary, however small the tolerance.
pub proof fn lemma_ray_at_corner_marks_boundary(
    ox: int,
    oy: int,
    eye: Aim,
    row: int,
    col: int,
    i: int,
    tolerance: Ratio,
)
    requires
        0 <= i < 4,
        near_corner(ox, oy, row, col, i),
        eye.sin * corner_vector(ox, oy, row, col, i).1 - eye.cos * corner_vector(
            ox,
            oy,
            row,
            col,
            i,
        ).0 == 0,
        eye.sin * corner_vector(ox, oy, row, col, i).0 + eye.cos * corner_vector(
            ox,
            oy,
            row,
            col,
            i,
        ).1 > 0,
        0 < tolerance.num,
    ensures
        marks_boundary(ox, oy, eye, row, col, tolerance),
{
    let v = corner_vector(ox, oy, row, col, i);
    let along = eye.sin * v.0 + eye.cos * v.1;
    assert(0 * tolerance.den < along * tolerance.num) by (nonlinear_arith)
        requires
            along > 0,
            tolerance.num > 0,
    ;
    assert(sights(eye, v, tolerance));
}

/// The mathematical model of a ray and of the way it is marched.
pub ghost struct Ray {
    pub origin_x: int,
    pub origin_y: int,
    pub eye: Aim,
    pub max_depth: int,
    pub step_size: int,
    pub edges: Option<Ratio>,
    pub rule: NegativeRule,
}

/// The ray from `(origin_x, origin_y)` along `eye`, marched as `settings`
/// say.
pub open spec fn ray_from(origin_x: int, origin_y: int, eye: Aim, settings: Settings) -> Ray {
    Ray {
        origin_x,
        origin_y,
        eye,
        max_depth: settings.max_depth,
        step_size: settings.step_size,
        edges: settings.edges,
        rule: settings.rule,
    }
}

impl Ray {
    /// The point of the ray at `distance` from its origin.
    pub open spec fn point(self, distance: int) -> (int, int) {
        (self.origin_x + self.eye.reach(distance).0, self.origin_y + self.eye.reach(distance).1)
    }

    /// What the ray finds at `distance` from its origin.
    pub open spec fn probe_at(self, grid: Grid, distance: int) -> Probe {
        grid.probe(self.point(distance).0, self.point(distance).1, self.rule)
    }

    /// What the `k`-th sample of the ray finds.
    pub open spec fn sample(self, grid: Grid, k: int) -> Probe {
        self.probe_at(grid, k * self.step_size)
    }

    /// The `k`-th sample is taken, short of the maximum depth, and stops the
    /// ray.
    pub open spec fn stops_at(self, grid: Grid, k: int) -> bool {
        1 <= k && k * self.step_size < self.max_depth && !(self.sample(grid, k) is Empty)
    }

    /// The `k`-th sample is the first that stops the ray.
    pub open spec fn first_stop(self, grid: Grid, k: int) -> bool {
        self.stops_at(grid, k) && forall|j: int| 1 <= j < k ==> !#[trigger] self.stops_at(grid, j)
    }

    /// No sample stops the ray.
    pub open spec fn unstopped(self, grid: Grid) -> bool {
        forall|k: int| !#[trigger] self.stops_at(grid, k)
    }

    /// What a ray finds that nothing stops.
    pub open spec fn miss(self) -> Sight {
        Sight { distance: self.max_depth, boundary: false }
    }

    /// What a ray finds that its `k`-th sample stops.
    pub open spec fn stopped(self, grid: Grid, k: int) -> Sight {
        let p = self.point(k * self.step_size);
        match (self.sample(grid, k), cell_containing(p.0, p.1, self.rule)) {
            (Probe::Wall, Some((row, col))) => Sight {
                distance: k * self.step_size,
                boundary: match self.edges {
                    Some(tolerance) => marks_boundary(
                        self.origin_x,
                        self.origin_y,
                        self.eye,
                        row,
                        col,
                        tolerance,
                    ),
                    None => false,
                },
            },
            _ => self.miss(),
        }
    }

    /// What the ray finds on the grid.
    pub open spec fn outcome(self, grid: Grid) -> Sight {
        if exists|k: int| self.first_stop(grid, k) {
            self.stopped(grid, choose|k: int| self.first_stop(grid, k))
        } else {
            self.miss()
        }
    }
}

/// The first sample that stops a ray decides what the ray finds.
pub proof fn lemma_first_stop_decides(ray: Ray, grid: Grid, k: int)
    requires
        ray.first_stop(grid, k),
    ensures
        ray.outcome(grid) == ray.stopped(grid, k),
{
    let chosen = choose|k: int| ray.first_stop(grid, k);
    assert(ray.first_stop(grid, chosen));
    if chosen < k {
        assert(ray.stops_at(grid, chosen));
    } else if k < chosen {
        assert(ray.stops_at(grid, k));
    }
}

/// A ray that no sample stops ends at the maximum depth.
pub proof fn lemma_unstopped_misses(ray: Ray, grid: Grid)
    requires
        ray.unstopped(grid),
    ensures
        ray.outcome(grid) == ray.miss(),
{
    if exists|k: int| ray.first_stop(grid, k) {
        let k = choose|k: int| ray.first_stop(grid, k);
        assert(ray.stops_at(grid, k));
    }
}

/// A ray whose samples short of the maximum depth all lie in empty cells of
/// the grid, so that its path neither leaves the grid nor meets a wall, ends
/// at exactly the maximum depth.
pub proof fn lemma_clear_path_reaches_max_depth(ray: Ray, grid: Grid)
    requires
        forall|k: int|
            1 <= k && k * ray.step_size < ray.max_depth ==> #[trigger] ray.sample(grid, k)
                is Empty,
    ensures
        ray.outcome(grid) == (Sight { distance: ray.max_depth, boundary: false }),
{
    assert forall|k: int| !#[trigger] ray.stops_at(grid, k) by {
        if 1 <= k && k * ray.step_size < ray.max_depth {
            assert(ray.sample(grid, k) is Empty);
        }
    }
    lemma_unstopped_misses(ray, grid);
}

/// Among the samples of a ray that is stopped, one is the first.
pub proof fn lemma_some_stop_is_first(ray: Ray, grid: Grid, k: int)
    requires
        ray.stops_at(grid, k),
    ensures
        exists|j: int| 1 <= j <= k && ray.first_stop(grid, j),
    decreases k,
{
    if forall|j: int| 1 <= j < k ==> !#[trigger] ray.stops_at(grid, j) {
        assert(ray.first_stop(grid, k));
    } else {
        let j = choose|j: int| 1 <= j < k && #[trigger] ray.stops_at(grid, j);
        lemma_some_stop_is_first(ray, grid, j);
    }
}

/// What a ray finds is never farther away than the maximum depth, and lies at
/// least one step away where the maximum depth does.
pub proof fn lemma_outcome_within_depth(ray: Ray, grid: Grid)
    requires
        0 < ray.step_size,
    ensures
        ray.outcome(grid).distance <= ray.max_depth,
        ray.step_size <= ray.max_depth ==> ray.step_size <= ray.outcome(grid).distance,
{
    if exists|k: int| ray.first_stop(grid, k) {
        let k = choose|k: int| ray.first_stop(grid, k);
        assert(ray.stops_at(grid, k));
        assert(ray.step_size <= k * ray.step_size) by (nonlinear_arith)
            requires
                1 <= k,
                0 < ray.step_size,
        ;
    }
}

/// A multiple of a positive step grows with its factor.
proof fn lemma_steps_ordered(j: int, k: int, step: int)
    by (nonlinear_arith)
    requires
        j <= k,
        0 < step,
    ensures
        j * step <= k * step,
        (k + 1) * step == k * step + step,
{
}

/// A ray aimed at a wall is stopped within one step of it. Let the points of
/// the ray nearer than `d` all lie in empty cells of the grid, and the points
/// from `d` on, for the length of one step, in wall cells; and let the maximum
/// depth lie at least one step behind `d`. Then the ray finds a distance that
/// is at least `d` and less than one step more.
pub proof fn lemma_hit_within_one_step(ray: Ray, grid: Grid, d: int)
    requires
        0 < ray.step_size,
        0 < d,
        d + ray.step_size <= ray.max_depth,
        forall|t: int| 0 < t < d ==> #[trigger] ray.probe_at(grid, t) is Empty,
        forall|t: int| d <= t < d + ray.step_size ==> #[trigger] ray.probe_at(grid, t) is Wall,
    ensures
        d <= ray.outcome(grid).distance < d + ray.step_size,
{
    let step = ray.step_size;
    let k = (d + step - 1) / step;
    assert(d <= k * step < d + step && 1 <= k) by (nonlinear_arith)
        requires
            0 < step,
            0 < d,
            k == (d + step - 1) / step,
    ;
    assert forall|j: int| 1 <= j < k implies !#[trigger] ray.stops_at(grid, j) by {
        lemma_steps_ordered(j, k - 1, step);
        lemma_steps_ordered(1, j, step);
        lemma_steps_ordered(k - 1, k - 1, step);
    }
    lemma_first_stop_decides(ray, grid, k);
}

/// The largest distance, along one coordinate, between the origin of a ray
/// and the nearest corner of a cell that one of its samples lies in.
const CELL_REACH: i128 = 0x8000_0000_0001_0000;

/// The cell `(row, col)` lies near enough to the origin for the arithmetic of
/// `find_boundary`.
spec fn cell_in_reach(ox: int, oy: int, row: int, col: int) -> bool {
    &&& -CELL_REACH <= row * ONE - ox <= CELL_REACH
    &&& -CELL_REACH <= col * ONE - oy <= CELL_REACH
}

/// `corner_vector`, computed.
fn corner_vector_of(ox: i64, oy: i64, row: u64, col: u64, i: u8) -> (v: (i128, i128))
    requires
        i < 4,
        cell_in_reach(ox as int, oy as int, row as int, col as int),
    ensures
        (v.0 as int, v.1 as int) == corner_vector(
            ox as int,
            oy as int,
            row as int,
            col as int,
            i as int,
        ),
        -CELL_REACH - ONE <= v.0 <= CELL_REACH + ONE,
        -CELL_REACH - ONE <= v.1 <= CELL_REACH + ONE,
{
    let cx: i128 = row as i128 + (i / 2) as i128;
    let cy: i128 = col as i128 + (i % 2) as i128;
    assert(cx * ONE == cx * 65536 && cy * ONE == cy * 65536);
    (cx * (ONE as i128) - ox as i128, cy * (ONE as i128) - oy as i128)
}

/// `length_squared`, computed.
fn length_squared_of(v: (i128, i128)) -> (r: u128)
    requires
        -CELL_REACH - ONE <= v.0 <= CELL_REACH + ONE,
        -CELL_REACH - ONE <= v.1 <= CELL_REACH + ONE,
    ensures
        r == length_squared((v.0 as int, v.1 as int)),
{
    proof {
        lemma_product_bounded(v.0 as int, v.0 as int, 0x8000_0000_0002_0000, 0x8000_0000_0002_0000);
        lemma_product_bounded(v.1 as int, v.1 as int, 0x8000_0000_0002_0000, 0x8000_0000_0002_0000);
        assert(0 <= v.0 * v.0) by (nonlinear_arith);
        assert(0 <= v.1 * v.1) by (nonlinear_arith);
    }
    let xx: i128 = v.0 * v.0;
    let yy: i128 = v.1 * v.1;
    xx as u128 + yy as u128
}

/// `sights`, computed.
fn sights_of(eye: &Direction, v: (i128, i128), tolerance: Ratio) -> (r: bool)
    requires
        -CELL_REACH - ONE <= v.0 <= CELL_REACH + ONE,
        -CELL_REACH - ONE <= v.1 <= CELL_REACH + ONE,
    ensures
        r == sights(eye@, (v.0 as int, v.1 as int), tolerance),
{
    let sin: i128 = eye.sin() as i128;
    let cos: i128 = eye.cos() as i128;
    proof {
        lemma_product_bounded(sin as int, v.0 as int, 65536, 0x8000_0000_0002_0000);
        lemma_product_bounded(cos as int, v.1 as int, 65536, 0x8000_0000_0002_0000);
        lemma_product_bounded(sin as int, v.1 as int, 65536, 0x8000_0000_0002_0000);
        lemma_product_bounded(cos as int, v.0 as int, 65536, 0x8000_0000_0002_0000);
    }
    let along: i128 = sin * v.0 + cos * v.1;
    let across: i128 = sin * v.1 - cos * v.0;
    let width: i128 = if across >= 0 {
        across
    } else {
        -across
    };
    along > 0 && tolerance.above(width, along)
}

/// `marks_boundary`, computed: the corner farthest from the origin, the later
/// one of two that are equally far, is left out, and the other three are
/// tried.
fn find_boundary(ox: i64, oy: i64, eye: &Direction, row: u64, col: u64, tolerance: Ratio) -> (r:
    bool)
    requires
        cell_in_reach(ox as int, oy as int, row as int, col as int),
    ensures
        r == marks_boundary(ox as int, oy as int, eye@, row as int, col as int, tolerance),
{
    let ghost (gx, gy, gr, gc) = (ox as int, oy as int, row as int, col as int);
    let mut far: u8 = 0;
    let mut far_d: u128 = length_squared_of(corner_vector_of(ox, oy, row, col, 0));
    let mut i: u8 = 1;
    while i < 4
        invariant
            1 <= i <= 4,
            far < i,
            (gx, gy, gr, gc) == (ox as int, oy as int, row as int, col as int),
            far_d == corner_distance_squared(gx, gy, gr, gc, far as int),
            cell_in_reach(gx, gy, gr, gc),
            forall|j: int|
                0 <= j < i ==> {
                    let dj = #[trigger] corner_distance_squared(gx, gy, gr, gc, j);
                    dj < far_d || (dj == far_d && j <= far)
                },
        decreases 4 - i,
    {
        let di = length_squared_of(corner_vector_of(ox, oy, row, col, i));
        if di >= far_d {
            far = i;
            far_d = di;
        }
        i = i + 1;
    }
    proof {
        assert forall|c: int| 0 <= c < 4 implies (near_corner(gx, gy, gr, gc, c) <==> c != far) by {
            let dc = corner_distance_squared(gx, gy, gr, gc, c);
            if c != far {
                assert(dc < far_d || (dc == far_d && c < far));
            } else {
                assert forall|j: int| 0 <= j < 4 implies !({
                    let dj = #[trigger] corner_distance_squared(gx, gy, gr, gc, j);
                    dc < dj || (dc == dj && c < j)
                }) by {
                    let dj = corner_distance_squared(gx, gy, gr, gc, j);
                    assert(dj < far_d || (dj == far_d && j <= far));
                }
            }
        }
    }
    let mut found = false;
    let mut c: u8 = 0;
    while c < 4
        invariant
            0 <= c <= 4,
            far < 4,
            (gx, gy, gr, gc) == (ox as int, oy as int, row as int, col as int),
            cell_in_reach(gx, gy, gr, gc),
            forall|j: int| 0 <= j < 4 ==> (near_corner(gx, gy, gr, gc, j) <==> j != far),
            found <==> exists|j: int|
                0 <= j < c && near_corner(gx, gy, gr, gc, j) && #[trigger] sights(
                    eye@,
                    corner_vector(gx, gy, gr, gc, j),
                    tolerance,
                ),
        decreases 4 - c,
    {
        if c != far && sights_of(eye, corner_vector_of(ox, oy, row, col, c), tolerance) {
            found = true;
        }
        c = c + 1;
    }
    found
}

/// Casts a ray from `(origin_x, origin_y)` along `eye` and says what it
/// finds. The ray is sampled every `step_size`, from one step away from the
/// origin to short of `max_depth`. The first sample in a wall cell gives the
/// distance, with the boundary mark where the configuration asks for one;
/// the first sample outside the grid, if it comes before, gives `max_depth`;
/// and so does a ray that meets neither.
pub fn cast(map: &TileMap, origin_x: i64, origin_y: i64, eye: Direction, config: &Config) -> (r:
    RayResult)
    ensures
        r@ == ray_from(origin_x as int, origin_y as int, eye@, config@).outcome(map@),
        0 < r.distance <= config@.max_depth,
{
    let ghost ray = ray_from(origin_x as int, origin_y as int, eye@, config@);
    let max_depth = config.max_depth();
    let step = config.step_size();
    let rule = config.rule();
    let edges = config.edges();
    let sin = eye.sin();
    let cos = eye.cos();
    let mut distance: i64 = 0;
    let ghost mut k: int = 0;
    while step < max_depth - distance
        invariant
            ray == ray_from(origin_x as int, origin_y as int, eye@, config@),
            max_depth == config@.max_depth,
            step == config@.step_size,
            rule == config@.rule,
            edges == config@.edges,
            sin == eye@.sin,
            cos == eye@.cos,
            -ONE <= sin <= ONE,
            -ONE <= cos <= ONE,
            0 < step,
            0 <= distance < max_depth,
            0 <= k,
            distance == k * step,
            forall|j: int| 1 <= j <= k ==> !#[trigger] ray.stops_at(map@, j),
        decreases max_depth - distance,
    {
        proof {
            lemma_steps_ordered(k, k, step as int);
            k = k + 1;
        }
        distance = distance + step;
        proof {
            lemma_scaled_within(sin as int, distance as int);
            lemma_scaled_within(cos as int, distance as int);
        }
        let x: i128 = origin_x as i128 + scale(sin, distance);
        let y: i128 = origin_y as i128 + scale(cos, distance);
        let cell = cell_of_wide(x, y, rule);
        match map.probe_cell(cell) {
            Probe::Empty => {},
            Probe::Wall => {
                let boundary = match (edges, cell) {
                    (Some(tolerance), Some((row, col))) => find_boundary(
                        origin_x,
                        origin_y,
                        &eye,
                        row,
                        col,
                        tolerance,
                    ),
                    _ => false,
                };
                proof {
                    lemma_first_stop_decides(ray, map@, k);
                }
                return RayResult { distance, boundary };
            },
            Probe::Outside => {
                proof {
                    lemma_first_stop_decides(ray, map@, k);
                }
                return RayResult { distance: max_depth, boundary: false };
            },
        }
    }
    proof {
        assert forall|j: int| !#[trigger] ray.stops_at(map@, j) by {
            if k < j {
                lemma_steps_ordered(k + 1, j, step as int);
                lemma_steps_ordered(k, k, step as int);
            }
        }
        lemma_unstopped_misses(ray, map@);
    }
    RayResult { distance: max_depth, boundary: false }
}

} // verus!
