use vstd::prelude::*;
use crate::grid::{Grid, MatchMask, in_bounds, row_major_before};
use crate::tile::{Tile, RandomSource};
use crate::matching::{scan, scan_and_mark};

verus! {

/// How many points a resolved group of matched cells is worth.
#[derive(Clone, Copy, Debug, PartialEq, Eq, Structural)]
pub enum ScoringPolicy {
    /// The cube of the number of matched cells.
    Cubic,
    /// One point for three cells, two for four, three for five, four otherwise.
    Tiered,
}

/// The points for `n` matched cells under policy `p`; the cube saturates at `u64::MAX`.
pub open spec fn policy_points(p: ScoringPolicy, n: nat) -> nat {
    match p {
        ScoringPolicy::Cubic => if n * n * n <= u64::MAX {
            n * n * n
        } else {
            u64::MAX as nat
        },
        ScoringPolicy::Tiered => if n == 3 {
            1
        } else if n == 4 {
            2
        } else if n == 5 {
            3
        } else {
            4
        },
    }
}

impl ScoringPolicy {
    /// The points for `n` matched cells.
    pub fn points(&self, n: u64) -> (p: u64)
        ensures
            p == policy_points(*self, n as nat),
    {
        match self {
            ScoringPolicy::Cubic => match n.checked_mul(n) {
                Some(sq) => match sq.checked_mul(n) {
                    Some(cube) => cube,
                    None => {
                        assert(n * n * n > u64::MAX) by (nonlinear_arith)
                            requires
                                sq == n * n,
                                sq * n > u64::MAX,
                        ;
                        u64::MAX
                    },
                },
                None => {
                    assert(n * n * n > u64::MAX) by (nonlinear_arith)
                        requires
                            n * n > u64::MAX,
                    ;
                    u64::MAX
                },
            },
            ScoringPolicy::Tiered => if n == 3 {
                1
            } else if n == 4 {
                2
            } else if n == 5 {
                3
            } else {
                4
            },
        }
    }
}

/// Flagged cells among the first `n` columns of row `y`.
pub open spec fn row_marks<const W: usize, const H: usize>(
    m: MatchMask<W, H>,
    y: int,
    n: int,
) -> nat
    decreases n,
{
    if n <= 0 {
        0
    } else {
        row_marks(m, y, n - 1) + if m.marked(n - 1, y) {
            1nat
        } else {
            0nat
        }
    }
}

/// Flagged cells in the first `r` rows.
pub open spec fn marks_upto<const W: usize, const H: usize>(m: MatchMask<W, H>, r: int) -> nat
    decreases r,
{
    if r <= 0 {
        0
    } else {
        marks_upto(m, r - 1) + row_marks(m, r - 1, W as int)
    }
}

/// Flagged cells on the whole board.
pub open spec fn mask_count<const W: usize, const H: usize>(m: MatchMask<W, H>) -> nat {
    marks_upto(m, H as int)
}

/// A board of `W` by `H` cells can be counted in a `usize`.
pub open spec fn board_fits(w: int, h: int) -> bool {
    w * h <= usize::MAX
}

proof fn lemma_row_marks_bound<const W: usize, const H: usize>(m: MatchMask<W, H>, y: int, n: int)
    requires
        n >= 0,
    ensures
        row_marks(m, y, n) <= n,
    decreases n,
{
    if n > 0 {
        lemma_row_marks_bound(m, y, n - 1);
    }
}

proof fn lemma_marks_upto_bound<const W: usize, const H: usize>(m: MatchMask<W, H>, r: int)
    requires
        r >= 0,
    ensures
        marks_upto(m, r) <= r * W,
    decreases r,
{
    if r > 0 {
        lemma_marks_upto_bound(m, r - 1);
        lemma_row_marks_bound(m, r - 1, W as int);
        assert((r - 1) * W + W == r * W) by (nonlinear_arith);
    }
}

/// What one cascade step matched: how many cells, and the smallest box around them.
#[derive(Clone, Copy, Debug, PartialEq, Eq, Structural)]
pub struct MatchRegion {
    pub xmin: usize,
    pub xmax: usize,
    pub ymin: usize,
    pub ymax: usize,
    pub count: usize,
}

/// Some flagged cell comes before `(px, py)` in row order.
pub open spec fn marked_before<const W: usize, const H: usize>(
    m: MatchMask<W, H>,
    px: int,
    py: int,
) -> bool {
    exists|i: int, j: int|
        in_bounds(W as int, H as int, i, j) && row_major_before(i, j, px, py) && #[trigger] m.marked(
            i,
            j,
        )
}

/// `r` counts the flagged cells before `(px, py)` and is the smallest box around them.
pub open spec fn region_of_before<const W: usize, const H: usize>(
    m: MatchMask<W, H>,
    r: MatchRegion,
    px: int,
    py: int,
) -> bool {
    &&& r.xmin <= r.xmax < W
    &&& r.ymin <= r.ymax < H
    &&& forall|i: int, j: int|
        in_bounds(W as int, H as int, i, j) && row_major_before(i, j, px, py) && #[trigger] m.marked(
            i,
            j,
        ) ==> r.xmin <= i <= r.xmax && r.ymin <= j <= r.ymax
    &&& exists|i: int, j: int|
        in_bounds(W as int, H as int, i, j) && row_major_before(i, j, px, py) && #[trigger] m.marked(
            i,
            j,
        ) && i == r.xmin
    &&& exists|i: int, j: int|
        in_bounds(W as int, H as int, i, j) && row_major_before(i, j, px, py) && #[trigger] m.marked(
            i,
            j,
        ) && i == r.xmax
    &&& exists|i: int, j: int|
        in_bounds(W as int, H as int, i, j) && row_major_before(i, j, px, py) && #[trigger] m.marked(
            i,
            j,
        ) && j == r.ymin
    &&& exists|i: int, j: int|
        in_bounds(W as int, H as int, i, j) && row_major_before(i, j, px, py) && #[trigger] m.marked(
            i,
            j,
        ) && j == r.ymax
}

/// The number of flagged cells and the smallest box around them; `None` where no cell
/// is flagged.
pub fn match_region<const W: usize, const H: usize>(mask: &MatchMask<W, H>) -> (r: Option<
    MatchRegion,
>)
    requires
        board_fits(W as int, H as int),
    ensures
        r is None <==> mask.is_clear(),
        r matches Some(reg) ==> reg.count == mask_count(*mask) && reg.count >= 1
            && region_of_before(*mask, reg, 0, H as int),
{
    let mut region: Option<MatchRegion> = None;
    let mut count: usize = 0;
    let mut y: usize = 0;
    while y < H
        invariant
            y <= H,
            board_fits(W as int, H as int),
            count == marks_upto(*mask, y as int),
            region is None <==> !marked_before(*mask, 0, y as int),
            region matches Some(reg) ==> reg.count == count && count >= 1 && region_of_before(
                *mask,
                reg,
                0,
                y as int,
            ),
        decreases H - y,
    {
        let mut x: usize = 0;
        proof {
            lemma_marks_upto_bound(*mask, y as int);
        }
        while x < W
            invariant
                x <= W,
                y < H,
                board_fits(W as int, H as int),
                marks_upto(*mask, y as int) <= y * W,
                count == marks_upto(*mask, y as int) + row_marks(*mask, y as int, x as int),
                region is None <==> !marked_before(*mask, x as int, y as int),
                region matches Some(reg) ==> reg.count == count && count >= 1 && region_of_before(
                    *mask,
                    reg,
                    x as int,
                    y as int,
                ),
            decreases W - x,
        {
            if mask.is_marked(x, y) {
                proof {
                    lemma_row_marks_bound(*mask, y as int, x as int);
                    assert(y * W + x + 1 <= H * W) by (nonlinear_arith)
                        requires
                            y < H,
                            x < W,
                    ;
                }
                count = count + 1;
                let next = match region {
                    None => MatchRegion { xmin: x, xmax: x, ymin: y, ymax: y, count },
                    Some(reg) => MatchRegion {
                        xmin: if x < reg.xmin {
                            x
                        } else {
                            reg.xmin
                        },
                        xmax: if x > reg.xmax {
                            x
                        } else {
                            reg.xmax
                        },
                        ymin: if y < reg.ymin {
                            y
                        } else {
                            reg.ymin
                        },
                        ymax: if y > reg.ymax {
                            y
                        } else {
                            reg.ymax
                        },
                        count,
                    },
                };
                region = Some(next);
            }
            x += 1;
        }
        y += 1;
    }
    region
}

/// Flagged cells among the first `n` rows of column `x`.
pub open spec fn col_marks<const W: usize, const H: usize>(
    m: MatchMask<W, H>,
    x: int,
    n: int,
) -> nat
    decreases n,
{
    if n <= 0 {
        0
    } else {
        col_marks(m, x, n - 1) + if m.marked(x, n - 1) {
            1nat
        } else {
            0nat
        }
    }
}

/// The unflagged tiles among the first `n` rows of column `x`, top to bottom.
pub open spec fn kept_column<const W: usize, const H: usize>(
    g: Grid<W, H>,
    m: MatchMask<W, H>,
    x: int,
    n: int,
) -> Seq<Tile>
    decreases n,
{
    if n <= 0 {
        seq![]
    } else if m.marked(x, n - 1) {
        kept_column(g, m, x, n - 1)
    } else {
        kept_column(g, m, x, n - 1).push(g.at(x, n - 1))
    }
}

/// `new` is `old` with the flagged cells of each column taken out and the cells above
/// them slid down: below the column's fresh top cells, it holds the column's unflagged
/// tiles in their old order.
pub open spec fn is_collapse_of<const W: usize, const H: usize>(
    new: Grid<W, H>,
    old: Grid<W, H>,
    m: MatchMask<W, H>,
) -> bool {
    forall|x: int, y: int|
        in_bounds(W as int, H as int, x, y) && y >= col_marks(m, x, H as int) ==> #[trigger] new.at(
            x,
            y,
        ) == kept_column(old, m, x, H as int)[y - col_marks(m, x, H as int)]
}

proof fn lemma_kept_len<const W: usize, const H: usize>(
    g: Grid<W, H>,
    m: MatchMask<W, H>,
    x: int,
    n: int,
)
    requires
        n >= 0,
    ensures
        kept_column(g, m, x, n).len() + col_marks(m, x, n) == n,
    decreases n,
{
    if n > 0 {
        lemma_kept_len(g, m, x, n - 1);
    }
}

/// Slides rows `0..y` of column `x` down by one, over row `y`, and puts `t` on top.
fn shift_down<const W: usize, const H: usize>(grid: &mut Grid<W, H>, x: usize, y: usize, t: Tile)
    requires
        x < W,
        y < H,
    ensures
        final(grid).at(x as int, 0) == t,
        forall|j: int| 1 <= j <= y ==> #[trigger] final(grid).at(x as int, j) == old(grid).at(x as int, j - 1),
        forall|i: int, j: int|
            in_bounds(W as int, H as int, i, j) && (i != x || j > y) ==> #[trigger] final(grid).at(i, j)
                == old(grid).at(i, j),
{
    let ghost g0 = *grid;
    let mut r: usize = y;
    while r > 0
        invariant
            r <= y,
            x < W,
            y < H,
            forall|j: int| r < j <= y ==> #[trigger] grid.at(x as int, j) == g0.at(x as int, j - 1),
            forall|i: int, j: int|
                in_bounds(W as int, H as int, i, j) && (i != x || j > y || j <= r) ==> #[trigger] grid.at(i, j)
                    == g0.at(i, j),
        decreases r,
    {
        let above = grid.get(x, r - 1);
        grid.set(x, r, above);
        r -= 1;
    }
    grid.set(x, 0, t);
}

/// Takes the flagged cells out of column `x`, refilling its top from `rng`.
fn collapse_column<const W: usize, const H: usize, R: RandomSource>(
    grid: &mut Grid<W, H>,
    mask: &MatchMask<W, H>,
    x: usize,
    rng: &mut R,
)
    requires
        x < W,
    ensures
        forall|j: int|
            col_marks(*mask, x as int, H as int) <= j < H ==> #[trigger] final(grid).at(x as int, j)
                == kept_column(*old(grid), *mask, x as int, H as int)[j - col_marks(
                *mask,
                x as int,
                H as int,
            )],
        forall|i: int, j: int|
            in_bounds(W as int, H as int, i, j) && i != x ==> #[trigger] final(grid).at(i, j) == old(grid).at(i, j),
{
    let ghost g0 = *grid;
    let mut y: usize = 0;
    while y < H
        invariant
            y <= H,
            x < W,
            forall|j: int|
                col_marks(*mask, x as int, y as int) <= j < y ==> #[trigger] grid.at(x as int, j)
                    == kept_column(g0, *mask, x as int, y as int)[j - col_marks(
                    *mask,
                    x as int,
                    y as int,
                )],
            forall|j: int| y <= j < H ==> #[trigger] grid.at(x as int, j) == g0.at(x as int, j),
            forall|i: int, j: int|
                in_bounds(W as int, H as int, i, j) && i != x ==> #[trigger] grid.at(i, j) == g0.at(i, j),
        decreases H - y,
    {
        proof {
            lemma_kept_len(g0, *mask, x as int, y as int);
        }
        if mask.is_marked(x, y) {
            let t = Tile::random(rng, None, None);
            shift_down(grid, x, y, t);
        }
        y += 1;
    }
}

/// Takes the flagged cells out of every column, refilling the tops from `rng`.
pub fn collapse<const W: usize, const H: usize, R: RandomSource>(
    grid: &mut Grid<W, H>,
    mask: &MatchMask<W, H>,
    rng: &mut R,
)
    ensures
        is_collapse_of(*final(grid), *old(grid), *mask),
{
    let ghost g0 = *grid;
    let mut x: usize = 0;
    while x < W
        invariant
            x <= W,
            forall|i: int, j: int|
                in_bounds(W as int, H as int, i, j) && i < x && j >= col_marks(*mask, i, H as int)
                    ==> #[trigger] grid.at(i, j) == kept_column(g0, *mask, i, H as int)[j - col_marks(
                    *mask,
                    i,
                    H as int,
                )],
            forall|i: int, j: int|
                in_bounds(W as int, H as int, i, j) && i >= x ==> #[trigger] grid.at(i, j) == g0.at(i, j),
        decreases W - x,
    {
        let ghost before = *grid;
        collapse_column(grid, mask, x, rng);
        proof {
            assert forall|j: int| 0 <= j < H implies before.at(x as int, j) == g0.at(x as int, j) by {}
            assert(kept_column(before, *mask, x as int, H as int) == kept_column(g0, *mask, x as int, H as int)) by {
                lemma_kept_same_column(before, g0, *mask, x as int, H as int);
            }
        }
        x += 1;
    }
}

/// The unflagged tiles of a column depend only on that column's cells.
proof fn lemma_kept_same_column<const W: usize, const H: usize>(
    g1: Grid<W, H>,
    g2: Grid<W, H>,
    m: MatchMask<W, H>,
    x: int,
    n: int,
)
    requires
        n <= H,
        forall|j: int| 0 <= j < H ==> #[trigger] g1.at(x, j) == g2.at(x, j),
    ensures
        kept_column(g1, m, x, n) == kept_column(g2, m, x, n),
    decreases n,
{
    if n > 0 {
        lemma_kept_same_column(g1, g2, m, x, n - 1);
    }
}

/// Every non-empty group is worth at least one point.
pub proof fn lemma_points_positive(p: ScoringPolicy, n: nat)
    requires
        n >= 1,
    ensures
        policy_points(p, n) >= 1,
{
    assert(n * n * n >= 1) by (nonlinear_arith)
        requires
            n >= 1,
    ;
}

/// What one step of a cascade matched, scored and took out of the board.
#[derive(Clone, Copy, Debug, PartialEq, Eq)]
pub struct CascadeStep<const W: usize, const H: usize> {
    /// The cells of every run the step found.
    pub mask: MatchMask<W, H>,
    /// How many cells that is, and the smallest box around them.
    pub region: MatchRegion,
    /// What the group scored.
    pub points: u64,
}

impl<const W: usize, const H: usize> CascadeStep<W, H> {
    /// This step took board `before` to board `after` under `policy`: it flagged exactly
    /// the cells of the runs of `before`, counted them and boxed them, scored them as one
    /// group, and took them out of the board.
    pub open spec fn is_step(&self, before: Grid<W, H>, after: Grid<W, H>, policy: ScoringPolicy) -> bool {
        &&& forall|i: int, j: int|
            in_bounds(W as int, H as int, i, j) ==> #[trigger] self.mask.marked(i, j)
                == before.in_match(i, j)
        &&& self.region.count == mask_count(self.mask)
        &&& self.region.count >= 1
        &&& region_of_before(self.mask, self.region, 0, H as int)
        &&& self.points == policy_points(policy, self.region.count as nat)
        &&& is_collapse_of(after, before, self.mask)
    }
}

/// One step of a cascade: finds every run of three, scores the matched cells as one
/// group, and takes them out of the board, refilling column tops from `rng`.
/// `None`, with the board untouched, where the board holds no run.
pub fn cascade_step<const W: usize, const H: usize, R: RandomSource>(
    grid: &mut Grid<W, H>,
    policy: ScoringPolicy,
    rng: &mut R,
) -> (r: Option<CascadeStep<W, H>>)
    requires
        board_fits(W as int, H as int),
    ensures
        r is None <==> !old(grid).has_match(),
        r is None ==> *final(grid) == *old(grid),
        r matches Some(s) ==> s.is_step(*old(grid), *final(grid), policy),
{
    let mut mask = MatchMask::new();
    if !scan_and_mark(grid, &mut mask) {
        return None;
    }
    let region = match match_region(&mask) {
        Some(reg) => reg,
        None => {
            proof {
                let (x, y) = choose|x: int, y: int| #[trigger] grid.run_at(x, y);
                assert(grid.in_match(x, y));
                assert(mask.marked(x, y));
            }
            return None;
        },
    };
    let points = policy.points(region.count as u64);
    collapse(grid, &mask, rng);
    Some(CascadeStep { mask, region, points })
}

/// Whether a horizontal run of three starts at `(x, y)`.
fn run_h_exec<const W: usize, const H: usize>(grid: &Grid<W, H>, x: usize, y: usize) -> (b: bool)
    requires
        y < H,
    ensures
        b == grid.run_h(x as int, y as int),
{
    if W > 2 && x < W - 2 {
        let t = grid.get(x, y);
        t == grid.get(x + 1, y) && t == grid.get(x + 2, y)
    } else {
        false
    }
}

/// Whether a vertical run of three starts at `(x, y)`.
fn run_v_exec<const W: usize, const H: usize>(grid: &Grid<W, H>, x: usize, y: usize) -> (b: bool)
    requires
        x < W,
    ensures
        b == grid.run_v(x as int, y as int),
{
    if H > 2 && y < H - 2 {
        let t = grid.get(x, y);
        t == grid.get(x, y + 1) && t == grid.get(x, y + 2)
    } else {
        false
    }
}

/// Whether cell `(x, y)` belongs to a run of three.
pub fn cell_in_match<const W: usize, const H: usize>(grid: &Grid<W, H>, x: usize, y: usize) -> (b: bool)
    requires
        x < W,
        y < H,
    ensures
        b == grid.in_match(x as int, y as int),
{
    (x >= 2 && run_h_exec(grid, x - 2, y)) || (x >= 1 && run_h_exec(grid, x - 1, y))
        || run_h_exec(grid, x, y) || (y >= 2 && run_v_exec(grid, x, y - 2)) || (y >= 1
        && run_v_exec(grid, x, y - 1)) || run_v_exec(grid, x, y)
}

/// `new` differs from `old` at most in cell `(cx, cy)`, whose new tile matches none of
/// its neighbours: then the cell is in no run, and every run of `new` was a run of `old`.
proof fn lemma_isolated_cell<const W: usize, const H: usize>(
    old: Grid<W, H>,
    new: Grid<W, H>,
    cx: int,
    cy: int,
)
    requires
        in_bounds(W as int, H as int, cx, cy),
        forall|i: int, j: int|
            in_bounds(W as int, H as int, i, j) && !(i == cx && j == cy) ==> #[trigger] new.at(i, j)
                == old.at(i, j),
        cx > 0 ==> new.at(cx, cy) != old.at(cx - 1, cy),
        cx + 1 < W ==> new.at(cx, cy) != old.at(cx + 1, cy),
        cy > 0 ==> new.at(cx, cy) != old.at(cx, cy - 1),
        cy + 1 < H ==> new.at(cx, cy) != old.at(cx, cy + 1),
    ensures
        !new.in_match(cx, cy),
        forall|x: int, y: int| #[trigger] new.in_match(x, y) ==> old.in_match(x, y),
{
    assert forall|x: int, y: int| #[trigger] new.run_h(x, y) implies old.run_h(x, y) by {
        assert(new.at(x, y) == old.at(x, y));
        assert(new.at(x + 1, y) == old.at(x + 1, y));
        assert(new.at(x + 2, y) == old.at(x + 2, y));
    }
    assert forall|x: int, y: int| #[trigger] new.run_v(x, y) implies old.run_v(x, y) by {
        assert(new.at(x, y) == old.at(x, y));
        assert(new.at(x, y + 1) == old.at(x, y + 1));
        assert(new.at(x, y + 2) == old.at(x, y + 2));
    }
}

/// Gives every cell that belongs to a run, in row order, the first colour that differs
/// from all its neighbours. Recolouring a cell that way cannot make a run, so the board
/// ends with none.
pub fn stabilize<const W: usize, const H: usize>(grid: &mut Grid<W, H>)
    ensures
        !final(grid).has_match(),
        !old(grid).has_match() ==> *final(grid) == *old(grid),
{
    let ghost g0 = *grid;
    let mut y: usize = 0;
    while y < H
        invariant
            y <= H,
            forall|i: int, j: int|
                in_bounds(W as int, H as int, i, j) && j < y ==> !#[trigger] grid.in_match(i, j),
            !g0.has_match() ==> *grid == g0,
        decreases H - y,
    {
        let mut x: usize = 0;
        while x < W
            invariant
                x <= W,
                y < H,
                forall|i: int, j: int|
                    in_bounds(W as int, H as int, i, j) && row_major_before(i, j, x as int, y as int)
                        ==> !#[trigger] grid.in_match(i, j),
                !g0.has_match() ==> *grid == g0,
            decreases W - x,
        {
            if cell_in_match(grid, x, y) {
                proof {
                    if !g0.has_match() {
                        if grid.in_run_h(x as int, y as int) {
                            if grid.run_h(x - 2, y as int) {
                                assert(grid.run_at(x - 2, y as int));
                            } else if grid.run_h(x - 1, y as int) {
                                assert(grid.run_at(x - 1, y as int));
                            } else {
                                assert(grid.run_at(x as int, y as int));
                            }
                        } else {
                            if grid.run_v(x as int, y - 2) {
                                assert(grid.run_at(x as int, y - 2));
                            } else if grid.run_v(x as int, y - 1) {
                                assert(grid.run_at(x as int, y - 1));
                            } else {
                                assert(grid.run_at(x as int, y as int));
                            }
                        }
                    }
                }
                let left = if x > 0 { Some(grid.get(x - 1, y)) } else { None };
                let right = if x + 1 < W { Some(grid.get(x + 1, y)) } else { None };
                let up = if y > 0 { Some(grid.get(x, y - 1)) } else { None };
                let down = if y + 1 < H { Some(grid.get(x, y + 1)) } else { None };
                let t = Tile::first_free(left, right, up, down);
                let ghost before = *grid;
                grid.set(x, y, t);
                proof {
                    lemma_isolated_cell(before, *grid, x as int, y as int);
                }
            }
            x += 1;
        }
        y += 1;
    }
    proof {
        if grid.has_match() {
            let (x, y) = choose|x: int, y: int| #[trigger] grid.run_at(x, y);
            assert(grid.in_match(x, y));
        }
    }
}

/// The most cascade steps one call of `resolve` runs before it repairs the board.
pub const MAX_CASCADE_STEPS: u32 = 1000;

/// What a whole cascade did.
#[derive(Clone, Copy, Debug, PartialEq, Eq, Structural)]
pub struct CascadeOutcome {
    /// Points scored over all steps, saturating at `u64::MAX`.
    pub points: u64,
    /// How many steps found and removed a match.
    pub steps: u32,
    /// The step limit was reached with runs left, and `stabilize` removed them.
    pub repaired: bool,
}

/// Runs cascade steps, adding up their points, until the board holds no run of three.
/// Should runs remain after `MAX_CASCADE_STEPS` steps (a random source that keeps
/// refilling runs), `stabilize` recolours them away, so the call always returns with a
/// board free of runs.
pub fn resolve<const W: usize, const H: usize, R: RandomSource>(
    grid: &mut Grid<W, H>,
    policy: ScoringPolicy,
    rng: &mut R,
) -> (out: CascadeOutcome)
    requires
        board_fits(W as int, H as int),
    ensures
        !final(grid).has_match(),
        out.steps <= MAX_CASCADE_STEPS,
        out.steps == 0 <==> !old(grid).has_match(),
        out.steps == 0 ==> *final(grid) == *old(grid) && out.points == 0,
        out.steps > 0 ==> out.points >= 1,
        out.repaired ==> out.steps == MAX_CASCADE_STEPS,
{
    let ghost g0 = *grid;
    let mut points: u64 = 0;
    let mut steps: u32 = 0;
    let mut settled = false;
    while steps < MAX_CASCADE_STEPS && !settled
        invariant
            board_fits(W as int, H as int),
            steps <= MAX_CASCADE_STEPS,
            steps == 0 ==> *grid == g0 && points == 0,
            steps > 0 ==> points >= 1 && g0.has_match(),
            settled ==> !grid.has_match(),
            settled && steps == 0 ==> !g0.has_match(),
        decreases MAX_CASCADE_STEPS - steps + if settled {
            0int
        } else {
            1int
        },
    {
        match cascade_step(grid, policy, rng) {
            None => {
                settled = true;
            },
            Some(s) => {
                proof {
                    lemma_points_positive(policy, s.region.count as nat);
                }
                points = points.saturating_add(s.points);
                steps += 1;
            },
        }
    }
    let mut repaired = false;
    if !settled && scan(grid) {
        stabilize(grid);
        repaired = true;
    }
    CascadeOutcome { points, steps, repaired }
}

} // verus!
