use vstd::prelude::*;
use crate::grid::{Grid, MatchMask, in_bounds, row_major_before, col_major_before};

verus! {

/// Looks for horizontal runs of three, row by row, and flags their cells when `mark` is set.
fn scan_rows<const W: usize, const H: usize>(
    grid: &Grid<W, H>,
    mask: &mut MatchMask<W, H>,
    mark: bool,
) -> (found: bool)
    ensures
        found == exists|a: int, b: int| #[trigger] grid.run_h(a, b),
        forall|i: int, j: int|
            in_bounds(W as int, H as int, i, j) ==> #[trigger] final(mask).marked(i, j) == (
            old(mask).marked(i, j) || (mark && grid.in_run_h(i, j))),
{
    let mut found = false;
    let mut y: usize = 0;
    while y < H
        invariant
            y <= H,
            found == exists|a: int, b: int| #[trigger] grid.run_h(a, b) && b < y,
            forall|i: int, j: int|
                in_bounds(W as int, H as int, i, j) ==> #[trigger] mask.marked(i, j) == (
                old(mask).marked(i, j) || (mark && grid.h_cover_before(i, j, 0, y as int))),
        decreases H - y,
    {
        let mut x: usize = 0;
        while W > 2 && x < W - 2
            invariant
                y < H,
                W > 2 ==> x <= W - 2,
                W <= 2 ==> x == 0,
                found == exists|a: int, b: int|
                    #[trigger] grid.run_h(a, b) && row_major_before(a, b, x as int, y as int),
                forall|i: int, j: int|
                    in_bounds(W as int, H as int, i, j) ==> #[trigger] mask.marked(i, j) == (
                    old(mask).marked(i, j) || (mark && grid.h_cover_before(
                        i,
                        j,
                        x as int,
                        y as int,
                    ))),
            decreases W - x,
        {
            let t = grid.get(x, y);
            if t == grid.get(x + 1, y) && t == grid.get(x + 2, y) {
                assert(grid.run_h(x as int, y as int));
                found = true;
                if mark {
                    mask.mark(x, y);
                    mask.mark(x + 1, y);
                    mask.mark(x + 2, y);
                }
            }
            x += 1;
        }
        y += 1;
    }
    found
}

/// Looks for vertical runs of three, column by column, and flags their cells when `mark` is set.
fn scan_columns<const W: usize, const H: usize>(
    grid: &Grid<W, H>,
    mask: &mut MatchMask<W, H>,
    mark: bool,
) -> (found: bool)
    ensures
        found == exists|a: int, b: int| #[trigger] grid.run_v(a, b),
        forall|i: int, j: int|
            in_bounds(W as int, H as int, i, j) ==> #[trigger] final(mask).marked(i, j) == (
            old(mask).marked(i, j) || (mark && grid.in_run_v(i, j))),
{
    let mut found = false;
    let mut x: usize = 0;
    while x < W
        invariant
            x <= W,
            found == exists|a: int, b: int| #[trigger] grid.run_v(a, b) && a < x,
            forall|i: int, j: int|
                in_bounds(W as int, H as int, i, j) ==> #[trigger] mask.marked(i, j) == (
                old(mask).marked(i, j) || (mark && grid.v_cover_before(i, j, x as int, 0))),
        decreases W - x,
    {
        let mut y: usize = 0;
        while H > 2 && y < H - 2
            invariant
                x < W,
                H > 2 ==> y <= H - 2,
                H <= 2 ==> y == 0,
                found == exists|a: int, b: int|
                    #[trigger] grid.run_v(a, b) && col_major_before(a, b, x as int, y as int),
                forall|i: int, j: int|
                    in_bounds(W as int, H as int, i, j) ==> #[trigger] mask.marked(i, j) == (
                    old(mask).marked(i, j) || (mark && grid.v_cover_before(
                        i,
                        j,
                        x as int,
                        y as int,
                    ))),
            decreases H - y,
        {
            let t = grid.get(x, y);
            if t == grid.get(x, y + 1) && t == grid.get(x, y + 2) {
                assert(grid.run_v(x as int, y as int));
                found = true;
                if mark {
                    mask.mark(x, y);
                    mask.mark(x, y + 1);
                    mask.mark(x, y + 2);
                }
            }
            y += 1;
        }
        x += 1;
    }
    found
}

/// A run of three exists iff a horizontal or a vertical one does.
proof fn lemma_match_split<const W: usize, const H: usize>(grid: &Grid<W, H>)
    ensures
        grid.has_match() == ((exists|a: int, b: int| #[trigger] grid.run_h(a, b)) || (exists|
            a: int,
            b: int,
        | #[trigger] grid.run_v(a, b))),
{
    if grid.has_match() {
        let (a, b) = choose|a: int, b: int| #[trigger] grid.run_at(a, b);
        assert(grid.run_h(a, b) || grid.run_v(a, b));
    }
    if exists|a: int, b: int| #[trigger] grid.run_h(a, b) {
        let (a, b) = choose|a: int, b: int| #[trigger] grid.run_h(a, b);
        assert(grid.run_at(a, b));
    }
    if exists|a: int, b: int| #[trigger] grid.run_v(a, b) {
        let (a, b) = choose|a: int, b: int| #[trigger] grid.run_v(a, b);
        assert(grid.run_at(a, b));
    }
}

/// Whether the board holds a run of three equal tiles, in a row or in a column.
/// The board is only read.
pub fn scan<const W: usize, const H: usize>(grid: &Grid<W, H>) -> (found: bool)
    ensures
        found == grid.has_match(),
{
    let mut scratch = MatchMask::new();
    let h = scan_rows(grid, &mut scratch, false);
    let v = scan_columns(grid, &mut scratch, false);
    proof {
        lemma_match_split(grid);
    }
    h || v
}

/// Whether the board holds a run of three, flagging in `mask` every cell of every run.
/// Flags already set stay set: runs longer than three, and crossing runs, add up.
pub fn scan_and_mark<const W: usize, const H: usize>(
    grid: &Grid<W, H>,
    mask: &mut MatchMask<W, H>,
) -> (found: bool)
    ensures
        found == grid.has_match(),
        forall|i: int, j: int|
            in_bounds(W as int, H as int, i, j) ==> #[trigger] final(mask).marked(i, j) == (
            old(mask).marked(i, j) || grid.in_match(i, j)),
{
    let h = scan_rows(grid, mask, true);
    let v = scan_columns(grid, mask, true);
    proof {
        lemma_match_split(grid);
    }
    h || v
}

/// Whether the board holds a run of three; where a mask is given, the cells of every
/// run are flagged in it as `scan_and_mark` does.
pub fn check_matches<const W: usize, const H: usize>(
    grid: &Grid<W, H>,
    matches: Option<&mut MatchMask<W, H>>,
) -> (found: bool)
    ensures
        found == grid.has_match(),
        matches matches Some(m) ==> forall|i: int, j: int|
            in_bounds(W as int, H as int, i, j) ==> #[trigger] final(m).marked(i, j) == (
            m.marked(i, j) || grid.in_match(i, j)),
{
    match matches {
        Some(mask) => scan_and_mark(grid, mask),
        None => scan(grid),
    }
}

} // verus!
