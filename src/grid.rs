use vstd::prelude::*;
use crate::tile::Tile;

verus! {

/// A `W`-wide, `H`-tall board of tiles, stored row by row: `cells[y][x]`, row 0 on top.
#[derive(Clone, Copy, Debug, PartialEq, Eq)]
pub struct Grid<const W: usize, const H: usize> {
    pub cells: [[Tile; W]; H],
}

/// Width of the standard board in tiles.
pub const GRID_WIDTH: usize = 6;
/// Height of the standard board in tiles.
pub const GRID_HEIGHT: usize = 7;

/// The standard board.
pub type TileGrid = Grid<GRID_WIDTH, GRID_HEIGHT>;

/// One flag per cell of a `W`-by-`H` board, set where a cell belongs to a run.
#[derive(Clone, Copy, Debug, PartialEq, Eq)]
pub struct MatchMask<const W: usize, const H: usize> {
    pub marks: [[bool; W]; H],
}

/// Whether `(x, y)` lies on a `w`-by-`h` board.
pub open spec fn in_bounds(w: int, h: int, x: int, y: int) -> bool {
    0 <= x < w && 0 <= y < h
}

/// `a` and `b` are side by side or one above the other on a `w`-by-`h` board.
pub open spec fn adjacent(w: int, h: int, a: (int, int), b: (int, int)) -> bool {
    &&& in_bounds(w, h, a.0, a.1)
    &&& in_bounds(w, h, b.0, b.1)
    &&& ((a.0 == b.0 && (a.1 == b.1 + 1 || b.1 == a.1 + 1)) || (a.1 == b.1 && (a.0 == b.0 + 1
        || b.0 == a.0 + 1)))
}

/// Whether `(sx, sy)` comes before `(px, py)` when cells are visited row by row.
pub open spec fn row_major_before(sx: int, sy: int, px: int, py: int) -> bool {
    sy < py || (sy == py && sx < px)
}

/// Whether `(sx, sy)` comes before `(px, py)` when cells are visited column by column.
pub open spec fn col_major_before(sx: int, sy: int, px: int, py: int) -> bool {
    sx < px || (sx == px && sy < py)
}

impl<const W: usize, const H: usize> Grid<W, H> {
    /// The tile in column `x` of row `y`.
    pub open spec fn at(&self, x: int, y: int) -> Tile {
        self.cells@[y]@[x]
    }

    /// Three equal tiles start at `(x, y)` and run to the right.
    pub open spec fn run_h(&self, x: int, y: int) -> bool {
        &&& 0 <= x && x + 2 < W
        &&& 0 <= y < H
        &&& self.at(x, y) == self.at(x + 1, y)
        &&& self.at(x, y) == self.at(x + 2, y)
    }

    /// Three equal tiles start at `(x, y)` and run downwards.
    pub open spec fn run_v(&self, x: int, y: int) -> bool {
        &&& 0 <= x < W
        &&& 0 <= y && y + 2 < H
        &&& self.at(x, y) == self.at(x, y + 1)
        &&& self.at(x, y) == self.at(x, y + 2)
    }

    /// A run of three, in either direction, starts at `(x, y)`.
    pub open spec fn run_at(&self, x: int, y: int) -> bool {
        self.run_h(x, y) || self.run_v(x, y)
    }

    /// The board holds at least one run of three equal tiles.
    pub open spec fn has_match(&self) -> bool {
        exists|x: int, y: int| #[trigger] self.run_at(x, y)
    }

    /// Cell `(x, y)` is covered by a horizontal run that starts before `(px, py)` in row order.
    pub open spec fn h_cover_before(&self, x: int, y: int, px: int, py: int) -> bool {
        ||| (self.run_h(x - 2, y) && row_major_before(x - 2, y, px, py))
        ||| (self.run_h(x - 1, y) && row_major_before(x - 1, y, px, py))
        ||| (self.run_h(x, y) && row_major_before(x, y, px, py))
    }

    /// Cell `(x, y)` is covered by a vertical run that starts before `(px, py)` in column order.
    pub open spec fn v_cover_before(&self, x: int, y: int, px: int, py: int) -> bool {
        ||| (self.run_v(x, y - 2) && col_major_before(x, y - 2, px, py))
        ||| (self.run_v(x, y - 1) && col_major_before(x, y - 1, px, py))
        ||| (self.run_v(x, y) && col_major_before(x, y, px, py))
    }

    /// Cell `(x, y)` belongs to some horizontal run of three.
    pub open spec fn in_run_h(&self, x: int, y: int) -> bool {
        self.run_h(x - 2, y) || self.run_h(x - 1, y) || self.run_h(x, y)
    }

    /// Cell `(x, y)` belongs to some vertical run of three.
    pub open spec fn in_run_v(&self, x: int, y: int) -> bool {
        self.run_v(x, y - 2) || self.run_v(x, y - 1) || self.run_v(x, y)
    }

    /// Cell `(x, y)` belongs to some run of three: this is what marking sets.
    pub open spec fn in_match(&self, x: int, y: int) -> bool {
        self.in_run_h(x, y) || self.in_run_v(x, y)
    }

    /// `self` is `g` with the tiles at `a` and `b` exchanged, every other cell kept.
    pub open spec fn is_swap_of(&self, g: Grid<W, H>, a: (int, int), b: (int, int)) -> bool {
        forall|i: int, j: int|
            in_bounds(W as int, H as int, i, j) ==> #[trigger] self.at(i, j) == if i == a.0 && j
                == a.1 {
                g.at(b.0, b.1)
            } else if i == b.0 && j == b.1 {
                g.at(a.0, a.1)
            } else {
                g.at(i, j)
            }
    }

    /// Exchanging the tiles at `a` and `b` would leave a run of three on the board.
    pub open spec fn swap_makes_match(&self, a: (int, int), b: (int, int)) -> bool {
        exists|s: Grid<W, H>| #[trigger] s.is_swap_of(*self, a, b) && s.has_match()
    }

    /// Both boards hold the same tile in every cell.
    pub open spec fn same_cells(&self, g: Grid<W, H>) -> bool {
        forall|i: int, j: int|
            in_bounds(W as int, H as int, i, j) ==> #[trigger] self.at(i, j) == g.at(i, j)
    }

    /// The tile in column `x` of row `y`.
    pub fn get(&self, x: usize, y: usize) -> (t: Tile)
        requires
            x < W,
            y < H,
        ensures
            t == self.at(x as int, y as int),
    {
        self.cells[y][x]
    }

    /// Puts `t` into column `x` of row `y`, leaving every other cell alone.
    pub fn set(&mut self, x: usize, y: usize, t: Tile)
        requires
            x < W,
            y < H,
        ensures
            final(self).at(x as int, y as int) == t,
            forall|i: int, j: int|
                in_bounds(W as int, H as int, i, j) && !(i == x && j == y)
                    ==> #[trigger] final(self).at(i, j) == old(self).at(i, j),
    {
        self.cells[y][x] = t;
    }
}

/// Boards with the same tile in every cell are the same board.
pub proof fn lemma_same_cells_equal<const W: usize, const H: usize>(g1: Grid<W, H>, g2: Grid<W, H>)
    requires
        g1.same_cells(g2),
    ensures
        g1 == g2,
{
    assert forall|y: int| 0 <= y < H implies g1.cells[y] =~= g2.cells[y] by {
        assert forall|x: int| 0 <= x < W implies g1.cells[y][x] == g2.cells[y][x] by {
            assert(g1.at(x, y) == g2.at(x, y));
        }
    }
    assert(g1.cells =~= g2.cells);
}

impl<const W: usize, const H: usize> MatchMask<W, H> {
    /// The flag of column `x` in row `y`.
    pub open spec fn marked(&self, x: int, y: int) -> bool {
        self.marks@[y]@[x]
    }

    /// No cell is flagged.
    pub open spec fn is_clear(&self) -> bool {
        forall|x: int, y: int| in_bounds(W as int, H as int, x, y) ==> !#[trigger] self.marked(x, y)
    }

    /// A mask with no cell flagged.
    pub fn new() -> (m: Self)
        ensures
            m.is_clear(),
    {
        MatchMask { marks: [[false; W]; H] }
    }

    /// Whether column `x` of row `y` is flagged.
    pub fn is_marked(&self, x: usize, y: usize) -> (b: bool)
        requires
            x < W,
            y < H,
        ensures
            b == self.marked(x as int, y as int),
    {
        self.marks[y][x]
    }

    /// Flags column `x` of row `y`, leaving every other flag alone.
    pub fn mark(&mut self, x: usize, y: usize)
        requires
            x < W,
            y < H,
        ensures
            forall|i: int, j: int|
                in_bounds(W as int, H as int, i, j) ==> #[trigger] final(self).marked(i, j)
                    == (old(self).marked(i, j) || (i == x && j == y)),
    {
        self.marks[y][x] = true;
    }
}

} // verus!
