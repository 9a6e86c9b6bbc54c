//! The tile map, and how a position falls into one of its cells.
//!
//! The first coordinate of a position counts rows, the second columns, and the
//! cells are stored row by row. The same convention holds for every lookup,
//! for rays as for moves.

use vstd::prelude::*;
use crate::fixed::ONE;

verus! {

/// What a cell of the map holds.
#[derive(Clone, Copy, Debug, PartialEq, Eq, Structural)]
pub enum CellKind {
    Wall,
    Empty,
}

/// Why a map was not built, or a cell not found.
#[derive(Clone, Copy, Debug, PartialEq, Eq, Structural)]
pub enum MapError {
    /// The cell lies outside the grid.
    OutOfBounds,
    /// The number of cells is not rows times columns.
    BadShape,
}

/// What becomes of a coordinate below zero when it is turned into a cell
/// index. The choice is part of the configuration; nothing else in the engine
/// gives a negative coordinate a meaning.
#[derive(Clone, Copy, Debug, PartialEq, Eq, Structural)]
pub enum NegativeRule {
    /// A negative coordinate lies in no cell.
    Outside,
    /// A negative coordinate lies in the first row, or column.
    Clamp,
}

/// What a position finds on the map.
#[derive(Clone, Copy, Debug, PartialEq, Eq, Structural)]
pub enum Probe {
    /// An empty cell of the grid.
    Empty,
    /// A wall cell of the grid.
    Wall,
    /// No cell of the grid.
    Outside,
}

/// The index, along one axis, of the cell that holds coordinate `v`: the whole
/// part of a coordinate that is not negative.
pub open spec fn axis_cell(v: int, rule: NegativeRule) -> Option<int> {
    if v >= 0 {
        Some(v / (ONE as int))
    } else {
        match rule {
            NegativeRule::Outside => None,
            NegativeRule::Clamp => Some(0),
        }
    }
}

/// The row and column of the cell that holds position `(x, y)`.
pub open spec fn cell_containing(x: int, y: int, rule: NegativeRule) -> Option<(int, int)> {
    match (axis_cell(x, rule), axis_cell(y, rule)) {
        (Some(row), Some(col)) => Some((row, col)),
        _ => None,
    }
}

/// The mathematical model of a tile map: its size and its cells, row by row.
pub ghost struct Grid {
    pub rows: int,
    pub cols: int,
    pub cells: Seq<CellKind>,
}

impl Grid {
    /// The cell `(row, col)` is one of the grid's.
    pub open spec fn holds(self, row: int, col: int) -> bool {
        0 <= row < self.rows && 0 <= col < self.cols
    }

    /// What the cell `(row, col)` holds.
    pub open spec fn kind(self, row: int, col: int) -> CellKind
        recommends
            self.holds(row, col),
    {
        self.cells[row * self.cols + col]
    }

    /// The answer to a query for the cell `(row, col)`.
    pub open spec fn lookup(self, row: int, col: int) -> Result<CellKind, MapError> {
        if self.holds(row, col) {
            Ok(self.kind(row, col))
        } else {
            Err(MapError::OutOfBounds)
        }
    }

    /// What a position in the cell `(row, col)` finds.
    pub open spec fn found_in(self, row: int, col: int) -> Probe {
        match self.lookup(row, col) {
            Ok(CellKind::Wall) => Probe::Wall,
            Ok(CellKind::Empty) => Probe::Empty,
            Err(_) => Probe::Outside,
        }
    }

    /// What the position `(x, y)` finds.
    pub open spec fn probe(self, x: int, y: int, rule: NegativeRule) -> Probe {
        match cell_containing(x, y, rule) {
            Some((row, col)) => self.found_in(row, col),
            None => Probe::Outside,
        }
    }
}

/// The greatest coordinate that `cell_of_wide` takes: more than any point of
/// a ray reaches.
pub(crate) const WIDE_LIMIT: i128 = 0x1_0000_0000_0000_0000_00;

/// The cell index of one coordinate.
fn axis_cell_wide(v: i128, rule: NegativeRule) -> (r: Option<u64>)
    requires
        v <= WIDE_LIMIT,
    ensures
        match r {
            Some(i) => axis_cell(v as int, rule) == Some(i as int),
            None => axis_cell(v as int, rule) is None,
        },
{
    if v >= 0 {
        Some((v / (ONE as i128)) as u64)
    } else {
        match rule {
            NegativeRule::Outside => None,
            NegativeRule::Clamp => Some(0),
        }
    }
}

/// `cell_of` for a point on a ray, which may lie a little past the range of
/// positions.
pub(crate) fn cell_of_wide(x: i128, y: i128, rule: NegativeRule) -> (r: Option<(u64, u64)>)
    requires
        x <= WIDE_LIMIT,
        y <= WIDE_LIMIT,
    ensures
        match r {
            Some((row, col)) => cell_containing(x as int, y as int, rule) == Some(
                (row as int, col as int),
            ),
            None => cell_containing(x as int, y as int, rule) is None,
        },
{
    match (axis_cell_wide(x, rule), axis_cell_wide(y, rule)) {
        (Some(row), Some(col)) => Some((row, col)),
        _ => None,
    }
}

/// The row and column of the cell that holds position `(x, y)`, by the one
/// rule that every lookup in the engine follows: a coordinate that is not
/// negative is cut down to its whole part, a negative one goes by `rule`.
pub fn cell_of(x: i64, y: i64, rule: NegativeRule) -> (r: Option<(u64, u64)>)
    ensures
        match r {
            Some((row, col)) => cell_containing(x as int, y as int, rule) == Some(
                (row as int, col as int),
            ),
            None => cell_containing(x as int, y as int, rule) is None,
        },
{
    cell_of_wide(x as i128, y as i128, rule)
}

/// A grid of wall and empty cells, fixed when it is built.
#[derive(Debug)]
pub struct TileMap {
    rows: usize,
    cols: usize,
    cells: Vec<CellKind>,
}

impl View for TileMap {
    type V = Grid;

    closed spec fn view(&self) -> Grid {
        Grid { rows: self.rows as int, cols: self.cols as int, cells: self.cells@ }
    }
}

/// The place of cell `(row, col)` in a grid stored row by row.
proof fn lemma_cell_index(row: int, col: int, rows: int, cols: int)
    by (nonlinear_arith)
    requires
        0 <= row < rows,
        0 <= col < cols,
    ensures
        0 <= row * cols + col < rows * cols,
{
}

impl TileMap {
    #[verifier::type_invariant]
    spec fn well_formed(self) -> bool {
        self.cells@.len() == self.rows * self.cols && self.rows * self.cols <= usize::MAX
    }

    /// A map of `rows` rows and `cols` columns over the given cells, row by
    /// row; `BadShape` where their number is not `rows * cols`.
    pub fn new(rows: usize, cols: usize, cells: Vec<CellKind>) -> (r: Result<TileMap, MapError>)
        ensures
            match r {
                Ok(map) => cells@.len() == rows * cols && map@ == (Grid {
                    rows: rows as int,
                    cols: cols as int,
                    cells: cells@,
                }),
                Err(e) => e == MapError::BadShape && cells@.len() != rows * cols,
            },
    {
        let len = cells.len();
        match rows.checked_mul(cols) {
            Some(n) => {
                if n == len {
                    Ok(TileMap { rows, cols, cells })
                } else {
                    Err(MapError::BadShape)
                }
            },
            None => Err(MapError::BadShape),
        }
    }

    /// A map read from glyphs, row by row: a cell is a wall where its glyph is
    /// `wall`, and empty elsewhere.
    pub fn from_glyphs(rows: usize, cols: usize, glyphs: &Vec<char>, wall: char) -> (r: Result<
        TileMap,
        MapError,
    >)
        ensures
            match r {
                Ok(map) => {
                    &&& glyphs@.len() == rows * cols
                    &&& map@.rows == rows
                    &&& map@.cols == cols
                    &&& map@.cells.len() == glyphs@.len()
                    &&& forall|i: int|
                        0 <= i < glyphs@.len() ==> #[trigger] map@.cells[i] == (if glyphs@[i]
                            == wall {
                            CellKind::Wall
                        } else {
                            CellKind::Empty
                        })
                },
                Err(e) => e == MapError::BadShape && glyphs@.len() != rows * cols,
            },
    {
        let mut cells: Vec<CellKind> = Vec::new();
        let mut i: usize = 0;
        while i < glyphs.len()
            invariant
                i <= glyphs@.len(),
                cells@.len() == i,
                forall|j: int|
                    0 <= j < i ==> #[trigger] cells@[j] == (if glyphs@[j] == wall {
                        CellKind::Wall
                    } else {
                        CellKind::Empty
                    }),
            decreases glyphs@.len() - i,
        {
            if glyphs[i] == wall {
                cells.push(CellKind::Wall);
            } else {
                cells.push(CellKind::Empty);
            }
            i = i + 1;
        }
        TileMap::new(rows, cols, cells)
    }

    /// The number of rows.
    pub fn rows(&self) -> (r: usize)
        ensures
            r == self@.rows,
    {
        self.rows
    }

    /// The number of columns.
    pub fn cols(&self) -> (r: usize)
        ensures
            r == self@.cols,
    {
        self.cols
    }

    /// What the cell `(row, col)` holds; `OutOfBounds` where the grid has no
    /// such cell.
    pub fn cell_at(&self, row: u64, col: u64) -> (r: Result<CellKind, MapError>)
        ensures
            r == self@.lookup(row as int, col as int),
    {
        if row < self.rows as u64 && col < self.cols as u64 {
            let r: usize = row as usize;
            let c: usize = col as usize;
            proof {
                use_type_invariant(self);
                lemma_cell_index(r as int, c as int, self.rows as int, self.cols as int);
            }
            Ok(self.cells[r * self.cols + c])
        } else {
            Err(MapError::OutOfBounds)
        }
    }

    /// What a cell index, if there is one, finds on the map.
    pub(crate) fn probe_cell(&self, cell: Option<(u64, u64)>) -> (r: Probe)
        ensures
            r == (match cell {
                Some((row, col)) => self@.found_in(row as int, col as int),
                None => Probe::Outside,
            }),
    {
        match cell {
            Some((row, col)) => match self.cell_at(row, col) {
                Ok(CellKind::Wall) => Probe::Wall,
                Ok(CellKind::Empty) => Probe::Empty,
                Err(_) => Probe::Outside,
            },
            None => Probe::Outside,
        }
    }

    /// What the position `(x, y)` finds on the map.
    pub fn probe(&self, x: i64, y: i64, rule: NegativeRule) -> (r: Probe)
        ensures
            r == self@.probe(x as int, y as int, rule),
    {
        self.probe_cell(cell_of(x, y, rule))
    }
}

} // verus!
