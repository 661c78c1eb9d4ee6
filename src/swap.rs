use vstd::prelude::*;
use crate::grid::{Grid, adjacent, lemma_same_cells_equal};
use crate::matching::scan;

verus! {

/// Boards with the same tiles in every cell agree on whether they hold a run.
pub proof fn lemma_same_cells_same_match<const W: usize, const H: usize>(
    g1: Grid<W, H>,
    g2: Grid<W, H>,
)
    requires
        g1.same_cells(g2),
    ensures
        g1.has_match() == g2.has_match(),
{
    assert forall|x: int, y: int| g1.run_at(x, y) == g2.run_at(x, y) by {
        if g1.run_h(x, y) || g2.run_h(x, y) {
            assert(g1.at(x, y) == g2.at(x, y));
            assert(g1.at(x + 1, y) == g2.at(x + 1, y));
            assert(g1.at(x + 2, y) == g2.at(x + 2, y));
        }
        if g1.run_v(x, y) || g2.run_v(x, y) {
            assert(g1.at(x, y) == g2.at(x, y));
            assert(g1.at(x, y + 1) == g2.at(x, y + 1));
            assert(g1.at(x, y + 2) == g2.at(x, y + 2));
        }
    }
    if g1.has_match() {
        let (x, y) = choose|x: int, y: int| #[trigger] g1.run_at(x, y);
        assert(g2.run_at(x, y));
    }
    if g2.has_match() {
        let (x, y) = choose|x: int, y: int| #[trigger] g2.run_at(x, y);
        assert(g1.run_at(x, y));
    }
}

/// Exchanges two neighbouring tiles and keeps the exchange only if it leaves a run of
/// three on the board; otherwise the exchange is undone and the board is as before.
pub fn try_swap<const W: usize, const H: usize>(
    grid: &mut Grid<W, H>,
    a: (usize, usize),
    b: (usize, usize),
) -> (kept: bool)
    requires
        adjacent(W as int, H as int, (a.0 as int, a.1 as int), (b.0 as int, b.1 as int)),
    ensures
        kept == old(grid).swap_makes_match((a.0 as int, a.1 as int), (b.0 as int, b.1 as int)),
        kept ==> final(grid).is_swap_of(
            *old(grid),
            (a.0 as int, a.1 as int),
            (b.0 as int, b.1 as int),
        ),
        kept ==> final(grid).has_match(),
        !kept ==> *final(grid) == *old(grid),
{
    let ghost before = *grid;
    let ta = grid.get(a.0, a.1);
    let tb = grid.get(b.0, b.1);
    grid.set(a.0, a.1, tb);
    grid.set(b.0, b.1, ta);
    let ghost exchanged = *grid;
    assert(exchanged.is_swap_of(before, (a.0 as int, a.1 as int), (b.0 as int, b.1 as int)));
    let kept = scan(grid);
    if !kept {
        grid.set(b.0, b.1, tb);
        grid.set(a.0, a.1, ta);
        assert forall|s: Grid<W, H>|
            #[trigger] s.is_swap_of(
                before,
                (a.0 as int, a.1 as int),
                (b.0 as int, b.1 as int),
            ) implies !s.has_match() by {
            assert(s.same_cells(exchanged));
            lemma_same_cells_same_match(s, exchanged);
        }
        proof {
            lemma_same_cells_equal(*grid, before);
        }
    }
    kept
}

} // verus!
