use vstd::prelude::*;
use crate::tile::{Tile, RandomSource, allowed};
use crate::grid::{Grid, in_bounds, adjacent};
use crate::matching::scan;
use crate::swap::try_swap;
use crate::cascade::{ScoringPolicy, CascadeOutcome, CascadeStep, resolve, cascade_step, board_fits};
use crate::input::{ButtonSet, InputEdgeDetector, presses_of, no_buttons};

verus! {

/// Cell `(x, y)` differs from the cell to its left and from the cell above it.
pub open spec fn differs_left_and_above<const W: usize, const H: usize>(
    g: Grid<W, H>,
    x: int,
    y: int,
) -> bool {
    &&& x > 0 ==> g.at(x, y) != g.at(x - 1, y)
    &&& y > 0 ==> g.at(x, y) != g.at(x, y - 1)
}

/// Every cell differs from the cell to its left and from the cell above it.
pub open spec fn no_repeats_left_or_above<const W: usize, const H: usize>(g: Grid<W, H>) -> bool {
    forall|x: int, y: int|
        in_bounds(W as int, H as int, x, y) ==> #[trigger] differs_left_and_above(g, x, y)
}

/// A board on which no cell repeats its left or upper neighbour holds no run.
pub proof fn lemma_no_repeats_no_match<const W: usize, const H: usize>(g: Grid<W, H>)
    requires
        no_repeats_left_or_above(g),
    ensures
        !g.has_match(),
{
    if g.has_match() {
        let (x, y) = choose|x: int, y: int| #[trigger] g.run_at(x, y);
        if g.run_h(x, y) {
            assert(differs_left_and_above(g, x + 1, y));
        } else {
            assert(differs_left_and_above(g, x, y + 1));
        }
    }
}

/// How a new board is filled: every cell avoids the colours to its left and above.
#[derive(Clone, Copy, Debug, PartialEq, Eq, Structural)]
pub enum InitPolicy {
    /// Each cell is drawn at random.
    Random,
    /// Each cell takes the first allowed colour in palette order.
    PaletteOrder,
}

/// Fills a board row by row, top to bottom, each cell avoiding the colours of the cell
/// above it and of the cell to its left.
pub fn initial_grid<const W: usize, const H: usize, R: RandomSource>(
    policy: InitPolicy,
    rng: &mut R,
) -> (g: Grid<W, H>)
    ensures
        no_repeats_left_or_above(g),
        !g.has_match(),
{
    let mut g = Grid { cells: [[Tile::Yellow; W]; H] };
    let mut y: usize = 0;
    while y < H
        invariant
            y <= H,
            forall|i: int, j: int|
                in_bounds(W as int, H as int, i, j) && j < y ==> #[trigger] differs_left_and_above(
                    g,
                    i,
                    j,
                ),
        decreases H - y,
    {
        let mut x: usize = 0;
        while x < W
            invariant
                x <= W,
                y < H,
                forall|i: int, j: int|
                    in_bounds(W as int, H as int, i, j) && (j < y || (j == y && i < x))
                        ==> #[trigger] differs_left_and_above(g, i, j),
            decreases W - x,
        {
            let above = if y > 0 { Some(g.get(x, y - 1)) } else { None };
            let left = if x > 0 { Some(g.get(x - 1, y)) } else { None };
            let t = match policy {
                InitPolicy::Random => Tile::random(rng, above, left),
                InitPolicy::PaletteOrder => Tile::random2(above, left),
            };
            let ghost before = g;
            g.set(x, y, t);
            proof {
                assert forall|i: int, j: int|
                    in_bounds(W as int, H as int, i, j) && (j < y || (j == y && i <= x))
                        implies #[trigger] differs_left_and_above(g, i, j) by {
                    if j < y || i < x {
                        assert(differs_left_and_above(before, i, j));
                    }
                }
            }
            x += 1;
        }
        y += 1;
    }
    proof {
        lemma_no_repeats_no_match(g);
    }
    g
}

/// Where the cursor starts, in both directions, where the board is large enough.
pub const START_SELECTION: usize = 3;

/// One player's game: the board, the cursor, the score and the button latches.
#[derive(Clone, Copy, Debug, PartialEq, Eq)]
pub struct GameSession<const W: usize, const H: usize> {
    pub grid: Grid<W, H>,
    pub sel_x: usize,
    pub sel_y: usize,
    pub score: u64,
    pub policy: ScoringPolicy,
    pub input: InputEdgeDetector,
}

/// What one tick did, besides the new state.
#[derive(Clone, Copy, Debug, PartialEq, Eq, Structural)]
pub struct TickReport {
    /// The button events of this tick.
    pub pressed: ButtonSet,
    /// A swap was attempted and kept.
    pub swapped: bool,
    /// What the cascade after it did.
    pub cascade: CascadeOutcome,
}

/// The cursor after the tick's moves: one cell per pressed direction, where the board
/// allows it.
pub open spec fn moved_selection(w: int, h: int, x: int, y: int, p: ButtonSet) -> (int, int) {
    let x1 = if p.left && x > 0 {
        x - 1
    } else {
        x
    };
    let x2 = if p.right && x1 + 1 < w {
        x1 + 1
    } else {
        x1
    };
    let y1 = if p.up && y > 0 {
        y - 1
    } else {
        y
    };
    let y2 = if p.down && y1 + 1 < h {
        y1 + 1
    } else {
        y1
    };
    (x2, y2)
}

/// The cell the tick swaps the cursor with: the neighbour of the first pressed swap
/// button, in the order up, left, down, right, whose neighbour is on the board.
pub open spec fn swap_target(w: int, h: int, x: int, y: int, p: ButtonSet) -> Option<(int, int)> {
    if p.swap_up && y > 0 {
        Some((x, y - 1))
    } else if p.swap_left && x > 0 {
        Some((x - 1, y))
    } else if p.swap_down && y + 1 < h {
        Some((x, y + 1))
    } else if p.swap_right && x + 1 < w {
        Some((x + 1, y))
    } else {
        None
    }
}

/// `a + b`, or `u64::MAX` where that is larger.
pub open spec fn sat_add(a: u64, b: u64) -> u64 {
    if a + b > u64::MAX {
        u64::MAX
    } else {
        (a + b) as u64
    }
}

/// The cursor after the tick's moves.
pub fn move_cursor<const W: usize, const H: usize>(x: usize, y: usize, pressed: ButtonSet) -> (r: (
    usize,
    usize,
))
    requires
        x < W,
        y < H,
    ensures
        r.0 < W && r.1 < H,
        (r.0 as int, r.1 as int) == moved_selection(W as int, H as int, x as int, y as int, pressed),
{
    let mut x = x;
    let mut y = y;
    if pressed.left && x > 0 {
        x -= 1;
    }
    if pressed.right && x + 1 < W {
        x += 1;
    }
    if pressed.up && y > 0 {
        y -= 1;
    }
    if pressed.down && y + 1 < H {
        y += 1;
    }
    (x, y)
}

/// The neighbour the tick swaps the cursor's tile with, if any.
pub fn pick_swap_target<const W: usize, const H: usize>(
    x: usize,
    y: usize,
    pressed: ButtonSet,
) -> (r: Option<(usize, usize)>)
    requires
        x < W,
        y < H,
    ensures
        r is None <==> swap_target(W as int, H as int, x as int, y as int, pressed) is None,
        r matches Some(c) ==> swap_target(W as int, H as int, x as int, y as int, pressed) == Some(
            (c.0 as int, c.1 as int),
        ) && adjacent(W as int, H as int, (x as int, y as int), (c.0 as int, c.1 as int)),
{
    if pressed.swap_up && y > 0 {
        Some((x, y - 1))
    } else if pressed.swap_left && x > 0 {
        Some((x - 1, y))
    } else if pressed.swap_down && y + 1 < H {
        Some((x, y + 1))
    } else if pressed.swap_right && x + 1 < W {
        Some((x + 1, y))
    } else {
        None
    }
}

impl<const W: usize, const H: usize> GameSession<W, H> {
    /// The cursor is on the board and the board's cells can be counted: this holds
    /// throughout a tick.
    pub open spec fn in_play(&self) -> bool {
        &&& self.sel_x < W
        &&& self.sel_y < H
        &&& board_fits(W as int, H as int)
    }

    /// Between ticks: in play, and the board holds no run.
    pub open spec fn wf(&self) -> bool {
        &&& self.in_play()
        &&& !self.grid.has_match()
    }

    /// A session on a freshly filled board, with no score and every button released.
    pub fn new<R: RandomSource>(init: InitPolicy, policy: ScoringPolicy, rng: &mut R) -> (s: Self)
        requires
            W > 0,
            H > 0,
            board_fits(W as int, H as int),
        ensures
            s.wf(),
            no_repeats_left_or_above(s.grid),
            s.score == 0,
            s.policy == policy,
            s.input.latch == no_buttons(),
            s.sel_x == if START_SELECTION < W { START_SELECTION } else { (W - 1) as usize },
            s.sel_y == if START_SELECTION < H { START_SELECTION } else { (H - 1) as usize },
    {
        let grid = initial_grid(init, rng);
        GameSession {
            grid,
            sel_x: if START_SELECTION < W { START_SELECTION } else { W - 1 },
            sel_y: if START_SELECTION < H { START_SELECTION } else { H - 1 },
            score: 0,
            policy,
            input: InputEdgeDetector::new(),
        }
    }

    /// A session on the given board with the cursor at `(x, y)`; `None` where the cursor
    /// is off the board or the board holds a run.
    pub fn from_grid(grid: Grid<W, H>, x: usize, y: usize, policy: ScoringPolicy) -> (r: Option<Self>)
        requires
            board_fits(W as int, H as int),
        ensures
            r is Some <==> (x < W && y < H && !grid.has_match()),
            r matches Some(s) ==> s.wf() && s.grid == grid && s.sel_x == x && s.sel_y == y
                && s.score == 0 && s.policy == policy && s.input.latch == no_buttons(),
    {
        if x >= W || y >= H || scan(&grid) {
            return None;
        }
        Some(GameSession { grid, sel_x: x, sel_y: y, score: 0, policy, input: InputEdgeDetector::new() })
    }

    /// The first half of a tick: the sampled levels become button events; the cursor
    /// moves; at most one swap is attempted, and kept only if it makes a run, the cursor
    /// following the moved tile. The board is then left for the cascade.
    pub fn apply_input(&mut self, raw: ButtonSet) -> (r: InputReport)
        requires
            old(self).wf(),
        ensures
            final(self).in_play(),
            input_applied(*old(self), *final(self), raw, r),
    {
        let pressed = self.input.update(raw);
        let (mut x, mut y) = move_cursor::<W, H>(self.sel_x, self.sel_y, pressed);
        let target = pick_swap_target::<W, H>(x, y, pressed);
        let mut swapped = false;
        if let Some(c) = target {
            swapped = try_swap(&mut self.grid, (x, y), c);
            if swapped {
                x = c.0;
                y = c.1;
            }
        }
        self.sel_x = x;
        self.sel_y = y;
        InputReport { pressed, swapped }
    }

    /// One cascade step on the session's board, its points added to the score; `None`,
    /// with nothing changed, where the board holds no run.
    pub fn cascade_once<R: RandomSource>(&mut self, rng: &mut R) -> (r: Option<CascadeStep<W, H>>)
        requires
            old(self).in_play(),
        ensures
            final(self).in_play(),
            same_but_board_and_score(*old(self), *final(self)),
            r is None <==> !old(self).grid.has_match(),
            r is None ==> *final(self) == *old(self),
            r matches Some(s) ==> s.is_step(old(self).grid, final(self).grid, old(self).policy)
                && final(self).score == sat_add(old(self).score, s.points),
    {
        let r = cascade_step(&mut self.grid, self.policy, rng);
        if let Some(s) = r {
            self.score = self.score.saturating_add(s.points);
        }
        r
    }

    /// The rest of a tick: cascade steps run until the board is free of runs, and their
    /// points are added to the score.
    pub fn settle<R: RandomSource>(&mut self, rng: &mut R) -> (out: CascadeOutcome)
        requires
            old(self).in_play(),
        ensures
            final(self).wf(),
            same_but_board_and_score(*old(self), *final(self)),
            out.steps == 0 <==> !old(self).grid.has_match(),
            out.steps == 0 ==> final(self).grid == old(self).grid && out.points == 0,
            out.steps > 0 ==> out.points >= 1,
            final(self).score == sat_add(old(self).score, out.points),
    {
        let out = resolve(&mut self.grid, self.policy, rng);
        self.score = self.score.saturating_add(out.points);
        out
    }

    /// One tick: `apply_input`, then `settle`. The board ends free of runs, and the score
    /// grows only where a cascade step resolved a match.
    pub fn tick<R: RandomSource>(&mut self, raw: ButtonSet, rng: &mut R) -> (r: TickReport)
        requires
            old(self).wf(),
        ensures
            final(self).wf(),
            !final(self).grid.has_match(),
            r.pressed == presses_of(old(self).input.latch, raw),
            final(self).input.latch == raw,
            final(self).policy == old(self).policy,
            ({
                let m = moved_selection(W as int, H as int, old(self).sel_x as int, old(self).sel_y as int, r.pressed);
                let t = swap_target(W as int, H as int, m.0, m.1, r.pressed);
                &&& t is None ==> !r.swapped
                &&& t matches Some(c) ==> r.swapped == old(self).grid.swap_makes_match(m, c)
                &&& r.swapped ==> (t matches Some(c) && final(self).sel_x == c.0 && final(self).sel_y == c.1)
                &&& !r.swapped ==> final(self).sel_x == m.0 && final(self).sel_y == m.1
            }),
            !r.swapped ==> final(self).grid == old(self).grid && r.cascade.steps == 0,
            r.swapped ==> r.cascade.steps > 0,
            final(self).score == sat_add(old(self).score, r.cascade.points),
            final(self).score >= old(self).score,
            final(self).score > old(self).score ==> r.cascade.steps > 0,
    {
        let input = self.apply_input(raw);
        let cascade = self.settle(rng);
        TickReport { pressed: input.pressed, swapped: input.swapped, cascade }
    }
}

/// What the first half of a tick did.
#[derive(Clone, Copy, Debug, PartialEq, Eq, Structural)]
pub struct InputReport {
    /// The button events of this tick.
    pub pressed: ButtonSet,
    /// A swap was attempted and kept.
    pub swapped: bool,
}

/// `new` is `old` after `apply_input(raw)` reported `r`.
pub open spec fn input_applied<const W: usize, const H: usize>(
    old: GameSession<W, H>,
    new: GameSession<W, H>,
    raw: ButtonSet,
    r: InputReport,
) -> bool {
    let m = moved_selection(W as int, H as int, old.sel_x as int, old.sel_y as int, r.pressed);
    let t = swap_target(W as int, H as int, m.0, m.1, r.pressed);
    &&& r.pressed == presses_of(old.input.latch, raw)
    &&& new.input.latch == raw
    &&& new.policy == old.policy
    &&& new.score == old.score
    &&& t is None ==> !r.swapped
    &&& t matches Some(c) ==> r.swapped == old.grid.swap_makes_match(m, c)
    &&& r.swapped ==> (t matches Some(c) && new.sel_x == c.0 && new.sel_y == c.1
        && new.grid.is_swap_of(old.grid, m, c) && new.grid.has_match())
    &&& !r.swapped ==> new.sel_x == m.0 && new.sel_y == m.1 && new.grid == old.grid
}

/// Only the board and the score differ between `old` and `new`.
pub open spec fn same_but_board_and_score<const W: usize, const H: usize>(
    old: GameSession<W, H>,
    new: GameSession<W, H>,
) -> bool {
    &&& new.sel_x == old.sel_x
    &&& new.sel_y == old.sel_y
    &&& new.policy == old.policy
    &&& new.input == old.input
}

} // verus!
