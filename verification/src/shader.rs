//! Shading: from a distance to a wall glyph, from a screen row to a floor
//! glyph.
//!
//! Walls fall into four bands of density and a background, by the distance
//! as a fraction of the maximum depth. The floor falls into four bands and a
//! background, by how far a row lies below the middle of the screen. Where
//! one band ends and the next begins is given by ratios, which are compared
//! exactly.

use vstd::prelude::*;
use crate::fixed::{lemma_proper_exceeds_less_than_one, Ratio};

verus! {

/// The bands of a wall, from the densest to the sparsest.
#[derive(Clone, Copy, Debug, PartialEq, Eq, Structural)]
pub enum WallBand {
    Full,
    Dark,
    Medium,
    Light,
    Background,
}

impl WallBand {
    /// How sparse the band is: `0` for the densest, `4` for the background.
    pub open spec fn level(self) -> int {
        match self {
            WallBand::Full => 0,
            WallBand::Dark => 1,
            WallBand::Medium => 2,
            WallBand::Light => 3,
            WallBand::Background => 4,
        }
    }
}

/// The bands of the floor, from the one nearest to the viewer, at the bottom
/// of the screen, to the background at its middle.
#[derive(Clone, Copy, Debug, PartialEq, Eq, Structural)]
pub enum FloorBand {
    Nearest,
    Near,
    Far,
    Farthest,
    Background,
}

impl FloorBand {
    /// How far away the band looks: `0` for the nearest, `4` for the
    /// background.
    pub open spec fn level(self) -> int {
        match self {
            FloorBand::Nearest => 0,
            FloorBand::Near => 1,
            FloorBand::Far => 2,
            FloorBand::Farthest => 3,
            FloorBand::Background => 4,
        }
    }
}

/// Where the bands of a wall end, each as a fraction of the maximum depth.
/// The full band reaches up to its fraction; the dark and the medium band end
/// below theirs; the light band ends below the maximum depth.
#[derive(Clone, Copy, Debug, PartialEq, Eq)]
pub struct WallCuts {
    pub full: Ratio,
    pub dark: Ratio,
    pub medium: Ratio,
}

/// Where the bands of the floor end, each as a fraction of the way from the
/// bottom of the screen to its middle. Each band ends below its fraction.
#[derive(Clone, Copy, Debug, PartialEq, Eq)]
pub struct FloorCuts {
    pub nearest: Ratio,
    pub near: Ratio,
    pub far: Ratio,
    pub farthest: Ratio,
}

impl WallCuts {
    /// Every fraction lies between zero and one, and none is smaller than
    /// the one before it.
    pub open spec fn proper(self) -> bool {
        &&& self.full.proper()
        &&& self.dark.proper()
        &&& self.medium.proper()
        &&& self.full.at_most(self.dark)
        &&& self.dark.at_most(self.medium)
    }

    /// `proper`, computed.
    pub fn is_proper(&self) -> (r: bool)
        ensures
            r == self.proper(),
    {
        self.full.is_proper() && self.dark.is_proper() && self.medium.is_proper()
            && self.full.is_at_most(&self.dark) && self.dark.is_at_most(&self.medium)
    }
}

impl FloorCuts {
    /// Every fraction lies between zero and one, and none is smaller than
    /// the one before it.
    pub open spec fn proper(self) -> bool {
        &&& self.nearest.proper()
        &&& self.near.proper()
        &&& self.far.proper()
        &&& self.farthest.proper()
        &&& self.nearest.at_most(self.near)
        &&& self.near.at_most(self.far)
        &&& self.far.at_most(self.farthest)
    }

    /// `proper`, computed.
    pub fn is_proper(&self) -> (r: bool)
        ensures
            r == self.proper(),
    {
        self.nearest.is_proper() && self.near.is_proper() && self.far.is_proper()
            && self.farthest.is_proper() && self.nearest.is_at_most(&self.near)
            && self.near.is_at_most(&self.far) && self.far.is_at_most(&self.farthest)
    }
}

/// The glyphs that a frame is drawn with.
#[derive(Clone, Copy, Debug, PartialEq, Eq)]
pub struct Palette {
    pub background: char,
    pub wall_full: char,
    pub wall_dark: char,
    pub wall_medium: char,
    pub wall_light: char,
    pub floor_nearest: char,
    pub floor_near: char,
    pub floor_far: char,
    pub floor_farthest: char,
    pub map_wall: char,
    pub map_empty: char,
    pub player: char,
}

impl Palette {
    /// The glyph of a wall band.
    pub open spec fn wall_glyph(self, band: WallBand) -> char {
        match band {
            WallBand::Full => self.wall_full,
            WallBand::Dark => self.wall_dark,
            WallBand::Medium => self.wall_medium,
            WallBand::Light => self.wall_light,
            WallBand::Background => self.background,
        }
    }

    /// The glyph of a floor band.
    pub open spec fn floor_glyph(self, band: FloorBand) -> char {
        match band {
            FloorBand::Nearest => self.floor_nearest,
            FloorBand::Near => self.floor_near,
            FloorBand::Far => self.floor_far,
            FloorBand::Farthest => self.floor_farthest,
            FloorBand::Background => self.background,
        }
    }
}

/// The band of a wall at `distance`: the background from the maximum depth
/// on, and below it the first band whose fraction of the maximum depth the
/// distance does not pass.
pub open spec fn wall_band(distance: int, max_depth: int, cuts: WallCuts) -> WallBand {
    if distance >= max_depth {
        WallBand::Background
    } else if cuts.full.reaches(distance, max_depth) {
        WallBand::Full
    } else if cuts.dark.exceeds(distance, max_depth) {
        WallBand::Dark
    } else if cuts.medium.exceeds(distance, max_depth) {
        WallBand::Medium
    } else {
        WallBand::Light
    }
}

/// Twice the number of rows from `row` down to the bottom edge of a screen of
/// `height` rows. Divided by `height` it is the gradient of the floor: one at
/// the middle of the screen, zero at its bottom edge.
pub open spec fn floor_gradient(row: int, height: int) -> int {
    2 * (height - row)
}

/// The band of the floor in `row` of a screen of `height` rows: the first
/// band whose fraction lies above the gradient, and the background where none
/// does.
pub open spec fn floor_band(row: int, height: int, cuts: FloorCuts) -> FloorBand {
    let g = floor_gradient(row, height);
    if cuts.nearest.exceeds(g, height) {
        FloorBand::Nearest
    } else if cuts.near.exceeds(g, height) {
        FloorBand::Near
    } else if cuts.far.exceeds(g, height) {
        FloorBand::Far
    } else if cuts.farthest.exceeds(g, height) {
        FloorBand::Farthest
    } else {
        FloorBand::Background
    }
}

/// `wall_band`, computed.
pub fn wall_band_of(distance: i64, max_depth: i64, cuts: &WallCuts) -> (band: WallBand)
    ensures
        band == wall_band(distance as int, max_depth as int, *cuts),
        distance >= max_depth ==> band == WallBand::Background,
{
    let d: i128 = distance as i128;
    let m: i128 = max_depth as i128;
    if distance >= max_depth {
        WallBand::Background
    } else if cuts.full.covers(d, m) {
        WallBand::Full
    } else if cuts.dark.above(d, m) {
        WallBand::Dark
    } else if cuts.medium.above(d, m) {
        WallBand::Medium
    } else {
        WallBand::Light
    }
}

/// `floor_band`, computed.
pub fn floor_band_of(row: u16, height: u16, cuts: &FloorCuts) -> (band: FloorBand)
    ensures
        band == floor_band(row as int, height as int, *cuts),
{
    let g: i128 = 2 * (height as i128 - row as i128);
    let h: i128 = height as i128;
    if cuts.nearest.above(g, h) {
        FloorBand::Nearest
    } else if cuts.near.above(g, h) {
        FloorBand::Near
    } else if cuts.far.above(g, h) {
        FloorBand::Far
    } else if cuts.farthest.above(g, h) {
        FloorBand::Farthest
    } else {
        FloorBand::Background
    }
}

/// The mathematical model of a shading profile.
pub ghost struct Shades {
    pub wall: WallCuts,
    pub floor: FloorCuts,
    pub palette: Palette,
}

impl Shades {
    /// The glyph of a wall at `distance`.
    pub open spec fn wall_shade(self, distance: int, max_depth: int) -> char {
        self.palette.wall_glyph(wall_band(distance, max_depth, self.wall))
    }

    /// The glyph of the floor in `row` of a screen of `height` rows.
    pub open spec fn floor_shade(self, row: int, height: int) -> char {
        self.palette.floor_glyph(floor_band(row, height, self.floor))
    }
}

/// The fractions at which the bands end, each between zero and one and in
/// rising order, and the glyphs of the bands.
#[derive(Clone, Copy, Debug)]
pub struct ShadeProfile {
    wall: WallCuts,
    floor: FloorCuts,
    palette: Palette,
}

impl View for ShadeProfile {
    type V = Shades;

    closed spec fn view(&self) -> Shades {
        Shades { wall: self.wall, floor: self.floor, palette: self.palette }
    }
}

impl ShadeProfile {
    #[verifier::type_invariant]
    spec fn well_formed(self) -> bool {
        self.wall.proper() && self.floor.proper()
    }

    /// The profile with the given fractions and glyphs; `None` where a
    /// fraction does not lie between zero and one, or is smaller than the one
    /// before it.
    pub fn new(wall: WallCuts, floor: FloorCuts, palette: Palette) -> (r: Option<ShadeProfile>)
        ensures
            r is Some <==> wall.proper() && floor.proper(),
            r matches Some(p) ==> p@ == (Shades { wall, floor, palette }),
    {
        if wall.is_proper() && floor.is_proper() {
            Some(ShadeProfile { wall, floor, palette })
        } else {
            None
        }
    }

    /// Where the bands of a wall end.
    pub fn wall_cuts(&self) -> (r: WallCuts)
        ensures
            r == self@.wall,
            r.proper(),
    {
        proof {
            use_type_invariant(self);
        }
        self.wall
    }

    /// Where the bands of the floor end.
    pub fn floor_cuts(&self) -> (r: FloorCuts)
        ensures
            r == self@.floor,
            r.proper(),
    {
        proof {
            use_type_invariant(self);
        }
        self.floor
    }

    /// The glyphs.
    pub fn palette(&self) -> (r: Palette)
        ensures
            r == self@.palette,
    {
        self.palette
    }

    /// The glyph of a wall at `distance`: that of its band, and the
    /// background from the maximum depth on.
    pub fn wall_shade(&self, distance: i64, max_depth: i64) -> (glyph: char)
        ensures
            glyph == self@.wall_shade(distance as int, max_depth as int),
            distance >= max_depth ==> glyph == self@.palette.background,
    {
        match wall_band_of(distance, max_depth, &self.wall) {
            WallBand::Full => self.palette.wall_full,
            WallBand::Dark => self.palette.wall_dark,
            WallBand::Medium => self.palette.wall_medium,
            WallBand::Light => self.palette.wall_light,
            WallBand::Background => self.palette.background,
        }
    }

    /// The glyph of the floor in `row` of a screen of `height` rows: that of
    /// its band, and the background at the middle of the screen and above.
    pub fn floor_shade(&self, row: u16, height: u16) -> (glyph: char)
        ensures
            glyph == self@.floor_shade(row as int, height as int),
            2 * row <= height ==> glyph == self@.palette.background,
    {
        proof {
            use_type_invariant(self);
            if 2 * row <= height {
                lemma_floor_band_at_midline(row as int, height as int, self.floor);
            }
        }
        match floor_band_of(row, height, &self.floor) {
            FloorBand::Nearest => self.palette.floor_nearest,
            FloorBand::Near => self.palette.floor_near,
            FloorBand::Far => self.palette.floor_far,
            FloorBand::Farthest => self.palette.floor_farthest,
            FloorBand::Background => self.palette.background,
        }
    }
}

/// A smaller number, multiplied by a number that is not negative, is not
/// greater.
proof fn lemma_scaled_order(a: int, b: int, c: int)
    by (nonlinear_arith)
    requires
        a <= b,
        0 <= c,
    ensures
        a * c <= b * c,
{
}

/// A wall never gets denser with distance: of two distances the greater has
/// the sparser band, or the same.
pub proof fn lemma_wall_band_monotone(near: int, far: int, max_depth: int, cuts: WallCuts)
    requires
        near <= far,
    ensures
        wall_band(near, max_depth, cuts).level() <= wall_band(far, max_depth, cuts).level(),
{
    lemma_scaled_order(near, far, cuts.full.den as int);
    lemma_scaled_order(near, far, cuts.dark.den as int);
    lemma_scaled_order(near, far, cuts.medium.den as int);
}

/// From the maximum depth on, a wall is drawn as background.
pub proof fn lemma_wall_band_beyond_depth(distance: int, max_depth: int, cuts: WallCuts)
    requires
        distance >= max_depth,
    ensures
        wall_band(distance, max_depth, cuts) == WallBand::Background,
{
}

/// The floor never looks farther away towards the bottom of the screen: of
/// two rows the lower has the nearer band, or the same.
pub proof fn lemma_floor_band_monotone(upper: int, lower: int, height: int, cuts: FloorCuts)
    requires
        upper <= lower,
    ensures
        floor_band(lower, height, cuts).level() <= floor_band(upper, height, cuts).level(),
{
    let gl = floor_gradient(lower, height);
    let gu = floor_gradient(upper, height);
    lemma_scaled_order(gl, gu, cuts.nearest.den as int);
    lemma_scaled_order(gl, gu, cuts.near.den as int);
    lemma_scaled_order(gl, gu, cuts.far.den as int);
    lemma_scaled_order(gl, gu, cuts.farthest.den as int);
}

/// At the middle of the screen, where the gradient is one, and above it, the
/// floor is drawn as background.
pub proof fn lemma_floor_band_at_midline(row: int, height: int, cuts: FloorCuts)
    requires
        cuts.proper(),
        0 <= height,
        2 * row <= height,
    ensures
        floor_band(row, height, cuts) == FloorBand::Background,
{
    let g = floor_gradient(row, height);
    lemma_proper_exceeds_less_than_one(cuts.nearest, g, height);
    lemma_proper_exceeds_less_than_one(cuts.near, g, height);
    lemma_proper_exceeds_less_than_one(cuts.far, g, height);
    lemma_proper_exceeds_less_than_one(cuts.farthest, g, height);
}

/// No row of the screen has a nearer band than the bottom row. The bottom
/// row has the nearest band of all on every screen high enough for its
/// gradient, two over the height, to lie below that band's fraction.
pub proof fn lemma_floor_band_at_bottom(row: int, height: int, cuts: FloorCuts)
    requires
        row < height,
    ensures
        floor_band(height - 1, height, cuts).level() <= floor_band(row, height, cuts).level(),
        cuts.nearest.exceeds(2, height) ==> floor_band(height - 1, height, cuts)
            == FloorBand::Nearest,
{
    lemma_floor_band_monotone(row, height - 1, height, cuts);
}

} // verus!
