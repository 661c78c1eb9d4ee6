use candy_crvsh::cascade::{
    cascade_step, collapse, match_region, resolve, stabilize, ScoringPolicy, MAX_CASCADE_STEPS,
};
use candy_crvsh::grid::{Grid, MatchMask};
use candy_crvsh::matching::{check_matches, scan, scan_and_mark};
use candy_crvsh::session::{initial_grid, InitPolicy};
use candy_crvsh::swap::try_swap;
use candy_crvsh::tile::{RandomSource, ThreadRandom, Tile};

struct Fixed(u32);

impl RandomSource for Fixed {
    fn draw_raw(&mut self) -> u32 {
        self.0
    }
}

struct Counter(u32);

impl RandomSource for Counter {
    fn draw_raw(&mut self) -> u32 {
        let v = self.0;
        self.0 = self.0.wrapping_add(1);
        v
    }
}

use Tile::{Blue as P4, Green as P3, Orange as B, Purple as P5, Red as A, Yellow as P2};

fn checker_board() -> Grid<6, 7> {
    let mut cells = [[A; 6]; 7];
    for y in 0..7 {
        for x in 0..6 {
            cells[y][x] = match (y % 2 == 0, x % 2 == 0) {
                _ if y == 0 => {
                    if x % 2 == 0 {
                        A
                    } else {
                        B
                    }
                }
                (false, true) => P2,
                (false, false) => P3,
                (true, true) => P4,
                (true, false) => P5,
            };
        }
    }
    Grid { cells }
}

#[test]
fn rejected_swap_leaves_board_unchanged() {
    let mut grid = checker_board();
    assert_eq!(grid.cells[0], [A, B, A, B, A, B]);
    let original = grid;
    assert!(!scan(&grid));
    let kept = try_swap(&mut grid, (0, 0), (1, 0));
    assert!(!kept);
    assert_eq!(grid, original);
}

#[test]
fn accepted_swap_is_kept() {
    let mut grid = checker_board();
    // row 0: A B A B A B; put an A under the B at column 1 and swap it up
    grid.cells[1][1] = A;
    assert!(!scan(&grid));
    let kept = try_swap(&mut grid, (1, 1), (1, 0));
    assert!(kept);
    assert_eq!(grid.cells[0][0..3], [A, A, A]);
    assert_eq!(grid.cells[1][1], B);
    assert!(scan(&grid));
}

#[test]
fn column_run_is_marked_and_collapsed() {
    let mut grid: Grid<1, 5> = Grid { cells: [[A], [A], [A], [B], [P2]] };
    let mut mask = MatchMask::<1, 5>::new();
    assert!(scan_and_mark(&grid, &mut mask));
    let flags: Vec<bool> = mask.marks.iter().map(|r| r[0]).collect();
    assert_eq!(flags, vec![true, true, true, false, false]);

    let mut rng = Fixed(3);
    let step = cascade_step(&mut grid, ScoringPolicy::Tiered, &mut rng).unwrap();
    assert_eq!(step.region.count, 3);
    assert_eq!(step.points, 1);
    assert_eq!(grid.cells, [[P3], [P3], [P3], [B], [P2]]);

    let mut grid: Grid<1, 5> = Grid { cells: [[A], [A], [A], [B], [P2]] };
    let step = cascade_step(&mut grid, ScoringPolicy::Cubic, &mut Fixed(3)).unwrap();
    assert_eq!(step.points, 27);
}

#[test]
fn run_of_four_marks_four_cells() {
    let grid: Grid<6, 1> = Grid { cells: [[B, A, A, A, A, B]] };
    let mut mask = MatchMask::<6, 1>::new();
    assert!(scan_and_mark(&grid, &mut mask));
    assert_eq!(mask.marks[0], [false, true, true, true, true, false]);
    let region = match_region(&mask).unwrap();
    assert_eq!((region.xmin, region.xmax, region.ymin, region.ymax, region.count), (1, 4, 0, 0, 4));
}

#[test]
fn crossing_runs_are_one_group() {
    // a plus sign: row 1 and column 1 both run through the centre
    let grid: Grid<3, 3> = Grid { cells: [[B, A, P2], [A, A, A], [P3, A, P4]] };
    let mut mask = MatchMask::<3, 3>::new();
    assert!(check_matches(&grid, Some(&mut mask)));
    let region = match_region(&mask).unwrap();
    assert_eq!(region.count, 5);
    assert_eq!((region.xmin, region.xmax, region.ymin, region.ymax), (0, 2, 0, 2));
    assert_eq!(ScoringPolicy::Tiered.points(5), 3);
    assert_eq!(ScoringPolicy::Cubic.points(5), 125);
}

#[test]
fn marking_keeps_earlier_flags() {
    let grid = checker_board();
    let mut mask = MatchMask::<6, 7>::new();
    mask.mark(5, 6);
    assert!(!scan_and_mark(&grid, &mut mask));
    assert!(mask.is_marked(5, 6));
    assert!(!mask.is_marked(0, 0));
}

#[test]
fn no_match_on_clear_board_and_empty_region() {
    let grid = checker_board();
    assert!(!check_matches(&grid, None));
    let mask = MatchMask::<6, 7>::new();
    assert!(match_region(&mask).is_none());
}

#[test]
fn scoring_tables() {
    let tiered = ScoringPolicy::Tiered;
    assert_eq!(tiered.points(3), 1);
    assert_eq!(tiered.points(4), 2);
    assert_eq!(tiered.points(5), 3);
    assert_eq!(tiered.points(6), 4);
    assert_eq!(tiered.points(9), 4);
    let cubic = ScoringPolicy::Cubic;
    assert_eq!(cubic.points(3), 27);
    assert_eq!(cubic.points(4), 64);
    assert_eq!(cubic.points(2_642_245), 18_446_724_184_312_856_125);
    assert_eq!(cubic.points(2_642_246), u64::MAX);
    assert_eq!(cubic.points(2_097_152), 1u64 << 63);
    assert_eq!(cubic.points(u64::MAX), u64::MAX);
}

#[test]
fn collapse_keeps_unmarked_order() {
    let mut grid: Grid<2, 4> = Grid { cells: [[A, P2], [B, P3], [A, P4], [P5, P5]] };
    let mut mask = MatchMask::<2, 4>::new();
    mask.mark(0, 1);
    mask.mark(0, 3);
    collapse(&mut grid, &mask, &mut Fixed(4));
    let col0: Vec<Tile> = grid.cells.iter().map(|r| r[0]).collect();
    let col1: Vec<Tile> = grid.cells.iter().map(|r| r[1]).collect();
    assert_eq!(col0, vec![P4, P4, A, A]);
    assert_eq!(col1, vec![P2, P3, P4, P5]);
}

#[test]
fn resolve_runs_to_a_settled_board() {
    let mut grid: Grid<1, 5> = Grid { cells: [[A], [A], [A], [B], [P2]] };
    let mut rng = Counter(0);
    let out = resolve(&mut grid, ScoringPolicy::Tiered, &mut rng);
    assert!(out.steps >= 1);
    assert!(out.points >= 1);
    assert!(!out.repaired);
    assert!(!scan(&grid));
}

#[test]
fn resolve_on_settled_board_does_nothing() {
    let mut grid = checker_board();
    let before = grid;
    let out = resolve(&mut grid, ScoringPolicy::Cubic, &mut Fixed(0));
    assert_eq!((out.points, out.steps, out.repaired), (0, 0, false));
    assert_eq!(grid, before);
}

#[test]
fn resolve_ends_even_with_a_constant_source() {
    let mut grid: Grid<6, 7> = Grid { cells: [[A; 6]; 7] };
    let out = resolve(&mut grid, ScoringPolicy::Tiered, &mut Fixed(0));
    assert_eq!(out.steps, MAX_CASCADE_STEPS);
    assert!(out.repaired);
    assert!(!scan(&grid));
}

#[test]
fn stabilize_clears_every_run() {
    let mut grid: Grid<4, 4> = Grid { cells: [[B; 4]; 4] };
    stabilize(&mut grid);
    assert!(!scan(&grid));
    let mut settled = checker_board();
    let before = settled;
    stabilize(&mut settled);
    assert_eq!(settled, before);
}

#[test]
fn palette_order_fill() {
    let g: Grid<6, 7> = initial_grid(InitPolicy::PaletteOrder, &mut Fixed(0));
    assert_eq!(g.cells[0], [A, B, A, B, A, B]);
    assert_eq!(g.cells[1], [B, A, B, A, B, A]);
    assert!(!scan(&g));
}

#[test]
fn random_fill_avoids_left_and_above() {
    for _ in 0..20 {
        let g: Grid<6, 7> = initial_grid(InitPolicy::Random, &mut ThreadRandom);
        for y in 0..7 {
            for x in 0..6 {
                if x > 0 {
                    assert_ne!(g.cells[y][x], g.cells[y][x - 1]);
                }
                if y > 0 {
                    assert_ne!(g.cells[y][x], g.cells[y - 1][x]);
                }
            }
        }
        assert!(!scan(&g));
    }
}

#[test]
fn thread_source_stays_in_palette() {
    let mut rng = ThreadRandom;
    let mut seen = [false; 6];
    for _ in 0..2000 {
        let r = rng.draw_raw();
        assert!(r < 6);
        seen[r as usize] = true;
    }
    assert!(seen.iter().all(|s| *s));
}

#[test]
fn tile_draws_respect_exclusions() {
    assert_eq!(Tile::from_raw(0), A);
    assert_eq!(Tile::from_raw(7), B);
    assert_eq!(Tile::from_raw(11), P5);
    assert_eq!(Tile::random(&mut Fixed(2), None, None), P2);
    assert_eq!(Tile::random(&mut Counter(0), Some(A), Some(B)), P2);
    // a source stuck on an excluded colour falls back to palette order
    assert_eq!(Tile::random(&mut Fixed(0), Some(A), Some(P2)), B);
    assert_eq!(Tile::random2(None, None), A);
    assert_eq!(Tile::random2(Some(A), None), B);
    assert_eq!(Tile::random2(Some(B), Some(A)), P2);
    assert_eq!(Tile::first_free(Some(A), Some(B), Some(P2), Some(P3)), P4);
    assert_eq!(Tile::first_free(None, None, None, None), A);
}
