//! The frame: one ray per screen column, a wall span in each column between
//! ceiling and floor, the map laid over the top-left corner, and a marker on
//! the player's cell.

use vstd::prelude::*;
use crate::config::{Config, Settings};
use crate::direction::Direction;
use crate::fixed::{fit, fitted, floor_div, lemma_product_bounded, ONE};
use crate::player::{Player, Pose};
use crate::raycaster::{cast, ray_from, RayResult, Sight};
use crate::shader::{Palette, ShadeProfile, Shades};
use crate::tile_map::{cell_containing, cell_of, CellKind, Grid, NegativeRule, TileMap};

verus! {

/// The mathematical model of a frame: its size and its glyphs, row by row.
pub ghost struct Screen {
    pub width: int,
    pub height: int,
    pub glyphs: Seq<char>,
}

impl Screen {
    /// Column `x` of row `y` is a place on the screen.
    pub open spec fn holds(self, x: int, y: int) -> bool {
        0 <= x < self.width && 0 <= y < self.height
    }

    /// The glyph in column `x` of row `y`.
    pub open spec fn at(self, x: int, y: int) -> char
        recommends
            self.holds(x, y),
    {
        self.glyphs[y * self.width + x]
    }
}

/// Why a frame was not rendered.
#[derive(Clone, Copy, Debug, PartialEq, Eq, Structural)]
pub enum RenderError {
    /// The number of bearings is not the number of columns.
    ColumnCount,
}

/// The parts of a screen column.
#[derive(Clone, Copy, Debug, PartialEq, Eq, Structural)]
pub enum Zone {
    Ceiling,
    Wall,
    Floor,
}

/// The bearing of the ray through `column` of a screen of `width` columns:
/// the columns sample the field of view evenly, from half of it to the left
/// of the heading on.
pub open spec fn column_angle(heading: int, fov: int, column: int, width: int) -> int {
    heading - fov / 2 + (column * fov) / width
}

/// The part of a column that `row` belongs to, on a screen of `height` rows,
/// for a wall at `distance`. With the distance counted in cells, the ceiling
/// ends at `height / 2 - height / distance` and the floor begins below
/// `height / 2 + height / distance`; a row on one of the two lines belongs
/// to the part above it. The rows are compared with the lines exactly, after
/// multiplying by twice the distance.
pub open spec fn row_zone(row: int, height: int, distance: int) -> Zone {
    let reach = (2 * row) * distance;
    let middle = height * distance;
    let span = (2 * height) * ONE;
    if reach <= middle - span {
        Zone::Ceiling
    } else if reach <= middle + span {
        Zone::Wall
    } else {
        Zone::Floor
    }
}

/// The glyph in `row` of a column whose ray found `sight`: background above
/// the wall; on the wall its shade, or background where the ray struck a
/// boundary; below the wall the shade of the floor.
pub open spec fn column_glyph(
    shades: Shades,
    sight: Sight,
    max_depth: int,
    row: int,
    height: int,
) -> char {
    match row_zone(row, height, sight.distance) {
        Zone::Ceiling => shades.palette.background,
        Zone::Wall => if sight.boundary {
            shades.palette.background
        } else {
            shades.wall_shade(sight.distance, max_depth)
        },
        Zone::Floor => shades.floor_shade(row, height),
    }
}

/// The glyph of a map cell.
pub open spec fn map_glyph(palette: Palette, kind: CellKind) -> char {
    match kind {
        CellKind::Wall => palette.map_wall,
        CellKind::Empty => palette.map_empty,
    }
}

/// All that a frame shows.
pub ghost struct Scene {
    pub grid: Grid,
    pub pose: Pose,
    /// The bearing of each column's ray.
    pub eyes: Seq<Direction>,
    pub settings: Settings,
    pub shades: Shades,
}

impl Scene {
    /// What the ray of column `x` finds.
    pub open spec fn sight(self, x: int) -> Sight {
        ray_from(self.pose.x, self.pose.y, self.eyes[x]@, self.settings).outcome(self.grid)
    }

    /// The glyph of the first-person view in column `x` of row `y`.
    pub open spec fn view_glyph(self, x: int, y: int, height: int) -> char {
        column_glyph(self.shades, self.sight(x), self.settings.max_depth, y, height)
    }

    /// The glyph in column `x` of row `y` once the map is laid over the view:
    /// the map cell of row `y` and column `x`, where the map has one.
    pub open spec fn overlaid_glyph(self, x: int, y: int, height: int) -> char {
        if self.grid.holds(y, x) {
            map_glyph(self.shades.palette, self.grid.kind(y, x))
        } else {
            self.view_glyph(x, y, height)
        }
    }

    /// The glyph in column `x` of row `y` of the finished frame: the marker
    /// on the player's cell, and elsewhere the map over the view.
    pub open spec fn glyph(self, x: int, y: int, height: int) -> char {
        if cell_containing(self.pose.x, self.pose.y, self.settings.rule) == Some((y, x)) {
            self.shades.palette.player
        } else {
            self.overlaid_glyph(x, y, height)
        }
    }
}

/// `column_angle`, computed: `None` where the screen has no such column, or
/// the angle is no `i64`.
pub fn ray_angle(heading: i64, fov: i64, column: u16, width: u16) -> (r: Option<i64>)
    ensures
        r == (if column < width {
            fitted(column_angle(heading as int, fov as int, column as int, width as int))
        } else {
            None
        }),
{
    if column < width {
        proof {
            lemma_product_bounded(column as int, fov as int, 0xffff, 0x8000_0000_0000_0000);
        }
        let half: i128 = floor_div(fov as i128, 2);
        let part: i128 = floor_div(column as i128 * fov as i128, width as i128);
        proof {
            assert(-0x8000_0000_0000_0000_0000 <= part <= 0x8000_0000_0000_0000_0000)
                by (nonlinear_arith)
                requires
                    part == (column as int * fov as int) / (width as int),
                    -0x7fff_8000_0000_0000_0000 <= column as int * fov as int
                        <= 0x7fff_8000_0000_0000_0000,
                    0 < width,
            ;
        }
        fit(heading as i128 - half + part)
    } else {
        None
    }
}

/// `row_zone`, computed.
fn zone_of(row: u16, height: u16, distance: i64) -> (r: Zone)
    ensures
        r == row_zone(row as int, height as int, distance as int),
{
    proof {
        lemma_product_bounded(2 * row as int, distance as int, 0x1_fffe, 0x8000_0000_0000_0000);
        lemma_product_bounded(height as int, distance as int, 0xffff, 0x8000_0000_0000_0000);
    }
    let reach: i128 = (2 * (row as i128)) * (distance as i128);
    let middle: i128 = (height as i128) * (distance as i128);
    let span: i128 = (2 * (height as i128)) * (ONE as i128);
    if reach <= middle - span {
        Zone::Ceiling
    } else if reach <= middle + span {
        Zone::Wall
    } else {
        Zone::Floor
    }
}

/// Two places of a frame with the same index are the same place.
proof fn lemma_index_injective(x: int, y: int, x0: int, y0: int, width: int)
    by (nonlinear_arith)
    requires
        0 <= x < width,
        0 <= x0 < width,
        y * width + x == y0 * width + x0,
    ensures
        x == x0,
        y == y0,
{
}

/// A grid of glyphs, as wide and as high as the display.
#[derive(Debug)]
pub struct FrameBuffer {
    width: u16,
    height: u16,
    glyphs: Vec<char>,
}

impl View for FrameBuffer {
    type V = Screen;

    closed spec fn view(&self) -> Screen {
        Screen { width: self.width as int, height: self.height as int, glyphs: self.glyphs@ }
    }
}

/// The place of column `x` of row `y` in a frame stored row by row.
proof fn lemma_glyph_index(x: int, y: int, width: int, height: int)
    by (nonlinear_arith)
    requires
        0 <= x < width <= 0xffff,
        0 <= y < height <= 0xffff,
    ensures
        0 <= y * width + x < width * height <= 0xfffe_0001,
        0 <= y * width <= 0xfffe_0001,
{
}

impl FrameBuffer {
    #[verifier::type_invariant]
    spec fn well_formed(self) -> bool {
        self.glyphs@.len() == self.width * self.height
    }

    /// A frame of `width` columns and `height` rows, every glyph `fill`.
    pub fn new(width: u16, height: u16, fill: char) -> (r: FrameBuffer)
        ensures
            r@.width == width,
            r@.height == height,
            r@.glyphs.len() == width * height,
            forall|i: int| 0 <= i < r@.glyphs.len() ==> r@.glyphs[i] == fill,
    {
        assert(0 <= width * height <= 0xfffe_0001) by (nonlinear_arith);
        let n: usize = width as usize * height as usize;
        let mut glyphs: Vec<char> = Vec::new();
        let mut i: usize = 0;
        while i < n
            invariant
                i <= n,
                glyphs@.len() == i,
                forall|j: int| 0 <= j < i ==> glyphs@[j] == fill,
            decreases n - i,
        {
            glyphs.push(fill);
            i = i + 1;
        }
        FrameBuffer { width, height, glyphs }
    }

    /// The number of columns.
    pub fn width(&self) -> (r: u16)
        ensures
            r == self@.width,
    {
        self.width
    }

    /// The number of rows.
    pub fn height(&self) -> (r: u16)
        ensures
            r == self@.height,
    {
        self.height
    }

    /// The glyphs of the frame, row by row.
    pub fn glyphs(&self) -> (r: &Vec<char>)
        ensures
            r@ == self@.glyphs,
            r@.len() == self@.width * self@.height,
    {
        proof {
            use_type_invariant(self);
        }
        &self.glyphs
    }

    /// The glyph in column `x` of row `y`; `None` outside the frame.
    pub fn get(&self, x: u16, y: u16) -> (r: Option<char>)
        ensures
            r == (if self@.holds(x as int, y as int) {
                Some(self@.at(x as int, y as int))
            } else {
                None
            }),
    {
        if x < self.width && y < self.height {
            proof {
                use_type_invariant(self);
                lemma_glyph_index(x as int, y as int, self.width as int, self.height as int);
            }
            Some(self.glyphs[y as usize * self.width as usize + x as usize])
        } else {
            None
        }
    }

    /// Writes `glyph` into column `x` of row `y`.
    fn put(&mut self, x: u16, y: u16, glyph: char)
        requires
            old(self)@.holds(x as int, y as int),
        ensures
            final(self)@.width == old(self)@.width,
            final(self)@.height == old(self)@.height,
            forall|cx: int, cy: int|
                old(self)@.holds(cx, cy) ==> #[trigger] final(self)@.at(cx, cy) == (if cx == x && cy
                    == y {
                    glyph
                } else {
                    old(self)@.at(cx, cy)
                }),
    {
        proof {
            use_type_invariant(&*self);
            lemma_glyph_index(x as int, y as int, self.width as int, self.height as int);
        }
        let i: usize = y as usize * self.width as usize + x as usize;
        self.glyphs[i] = glyph;
        proof {
            assert forall|cx: int, cy: int| old(self)@.holds(cx, cy) implies #[trigger] self@.at(
                cx,
                cy,
            ) == (if cx == x && cy == y {
                glyph
            } else {
                old(self)@.at(cx, cy)
            }) by {
                lemma_glyph_index(cx, cy, self.width as int, self.height as int);
                if !(cx == x && cy == y) {
                    if cy * self.width + cx == y * self.width + x {
                        lemma_index_injective(cx, cy, x as int, y as int, self.width as int);
                    }
                }
            }
        }
    }

    /// Draws column `x` for a ray that found `sight`.
    fn draw_column(&mut self, x: u16, sight: RayResult, max_depth: i64, profile: &ShadeProfile)
        requires
            x < old(self)@.width,
        ensures
            final(self)@.width == old(self)@.width,
            final(self)@.height == old(self)@.height,
            forall|cx: int, cy: int|
                old(self)@.holds(cx, cy) ==> #[trigger] final(self)@.at(cx, cy) == (if cx == x {
                    column_glyph(profile@, sight@, max_depth as int, cy, old(self)@.height)
                } else {
                    old(self)@.at(cx, cy)
                }),
    {
        let ghost before = self@;
        let height = self.height;
        let palette = profile.palette();
        let mut y: u16 = 0;
        while y < height
            invariant
                y <= height,
                height == before.height,
                x < before.width,
                self@.width == before.width,
                self@.height == before.height,
                palette == profile@.palette,
                forall|cx: int, cy: int|
                    before.holds(cx, cy) ==> #[trigger] self@.at(cx, cy) == (if cx == x && cy < y {
                        column_glyph(profile@, sight@, max_depth as int, cy, before.height)
                    } else {
                        before.at(cx, cy)
                    }),
            decreases height - y,
        {
            let glyph = match zone_of(y, height, sight.distance) {
                Zone::Ceiling => palette.background,
                Zone::Wall => if sight.boundary {
                    palette.background
                } else {
                    profile.wall_shade(sight.distance, max_depth)
                },
                Zone::Floor => profile.floor_shade(y, height),
            };
            self.put(x, y, glyph);
            y = y + 1;
        }
    }

    /// Lays the map over the top-left corner of the frame, its cell of row
    /// `r` and column `c` on column `c` of row `r`, as far as the frame
    /// reaches.
    fn draw_map(&mut self, map: &TileMap, palette: Palette)
        ensures
            final(self)@.width == old(self)@.width,
            final(self)@.height == old(self)@.height,
            forall|cx: int, cy: int|
                old(self)@.holds(cx, cy) ==> #[trigger] final(self)@.at(cx, cy) == (if map@.holds(
                    cy,
                    cx,
                ) {
                    map_glyph(palette, map@.kind(cy, cx))
                } else {
                    old(self)@.at(cx, cy)
                }),
    {
        let ghost before = self@;
        let rows: u16 = if map.rows() < self.height as usize {
            map.rows() as u16
        } else {
            self.height
        };
        let cols: u16 = if map.cols() < self.width as usize {
            map.cols() as u16
        } else {
            self.width
        };
        let mut y: u16 = 0;
        while y < rows
            invariant
                y <= rows <= before.height,
                cols <= before.width,
                rows == before.height || rows == map@.rows,
                cols == before.width || cols == map@.cols,
                self@.width == before.width,
                self@.height == before.height,
                forall|cx: int, cy: int|
                    before.holds(cx, cy) ==> #[trigger] self@.at(cx, cy) == (if map@.holds(cy, cx)
                        && cy < y {
                        map_glyph(palette, map@.kind(cy, cx))
                    } else {
                        before.at(cx, cy)
                    }),
            decreases rows - y,
        {
            let mut x: u16 = 0;
            while x < cols
                invariant
                    x <= cols <= before.width,
                    y < rows <= before.height,
                    cols == before.width || cols == map@.cols,
                    self@.width == before.width,
                    self@.height == before.height,
                    forall|cx: int, cy: int|
                        before.holds(cx, cy) ==> #[trigger] self@.at(cx, cy) == (if map@.holds(
                            cy,
                            cx,
                        ) && (cy < y || (cy == y && cx < x)) {
                            map_glyph(palette, map@.kind(cy, cx))
                        } else {
                            before.at(cx, cy)
                        }),
                decreases cols - x,
            {
                match map.cell_at(y as u64, x as u64) {
                    Ok(CellKind::Wall) => {
                        self.put(x, y, palette.map_wall);
                    },
                    Ok(CellKind::Empty) => {
                        self.put(x, y, palette.map_empty);
                    },
                    Err(_) => {},
                }
                x = x + 1;
            }
            y = y + 1;
        }
    }

    /// Marks the player's cell, where the frame reaches it.
    fn draw_marker(&mut self, player: &Player, rule: NegativeRule, glyph: char)
        ensures
            final(self)@.width == old(self)@.width,
            final(self)@.height == old(self)@.height,
            forall|cx: int, cy: int|
                old(self)@.holds(cx, cy) ==> #[trigger] final(self)@.at(cx, cy) == (
                if cell_containing(player@.x, player@.y, rule) == Some((cy, cx)) {
                    glyph
                } else {
                    old(self)@.at(cx, cy)
                }),
    {
        match cell_of(player.x(), player.y(), rule) {
            Some((row, col)) => {
                if row < self.height as u64 && col < self.width as u64 {
                    self.put(col as u16, row as u16, glyph);
                }
            },
            None => {},
        }
    }

    /// Renders the scene into the frame, overwriting every glyph: one ray
    /// per column, along the bearing that `eyes` gives for it, then the map,
    /// then the marker. `ColumnCount`, and the frame untouched, where `eyes`
    /// does not hold one bearing for each column.
    pub fn render(
        &mut self,
        map: &TileMap,
        player: &Player,
        eyes: &Vec<Direction>,
        config: &Config,
        profile: &ShadeProfile,
    ) -> (r: Result<(), RenderError>)
        ensures
            final(self)@.width == old(self)@.width,
            final(self)@.height == old(self)@.height,
            final(self)@.glyphs.len() == old(self)@.glyphs.len(),
            r is Ok <==> eyes@.len() == old(self)@.width,
            r is Ok ==> forall|x: int, y: int|
                old(self)@.holds(x, y) ==> #[trigger] final(self)@.at(x, y) == (Scene {
                    grid: map@,
                    pose: player@,
                    eyes: eyes@,
                    settings: config@,
                    shades: profile@,
                }).glyph(x, y, old(self)@.height),
            r is Err ==> r == Err::<(), RenderError>(RenderError::ColumnCount) && final(self)@
                == old(self)@,
    {
        proof {
            use_type_invariant(&*self);
        }
        if eyes.len() != self.width as usize {
            return Err(RenderError::ColumnCount);
        }
        let ghost scene = Scene {
            grid: map@,
            pose: player@,
            eyes: eyes@,
            settings: config@,
            shades: profile@,
        };
        let ghost before = self@;
        let width = self.width;
        let max_depth = config.max_depth();
        let mut x: u16 = 0;
        while x < width
            invariant
                x <= width,
                width == before.width,
                eyes@.len() == width,
                self@.width == before.width,
                self@.height == before.height,
                max_depth == config@.max_depth,
                scene == (Scene {
                    grid: map@,
                    pose: player@,
                    eyes: eyes@,
                    settings: config@,
                    shades: profile@,
                }),
                forall|cx: int, cy: int|
                    before.holds(cx, cy) && cx < x ==> #[trigger] self@.at(cx, cy)
                        == scene.view_glyph(cx, cy, before.height),
            decreases width - x,
        {
            let sight = cast(map, player.x(), player.y(), eyes[x as usize], config);
            self.draw_column(x, sight, max_depth, profile);
            x = x + 1;
        }
        self.draw_map(map, profile.palette());
        self.draw_marker(player, config.rule(), profile.palette().player);
        proof {
            use_type_invariant(&*self);
        }
        Ok(())
    }
}

} // verus!
