use candy_crvsh::ball::Ball;
use candy_crvsh::cascade::ScoringPolicy;
use candy_crvsh::grid::Grid;
use candy_crvsh::input::{edge_step, ButtonSet, InputEdgeDetector};
use candy_crvsh::matching::scan;
use candy_crvsh::render::{
    erase_text, fb_to_wb, pixel8_to_pixel32, wait_for_millis, FrameBuffer, WindowBuffer,
};
use candy_crvsh::session::{GameSession, InitPolicy};
use candy_crvsh::tile::{RandomSource, ThreadRandom, Tile};

struct Fixed(u32);

impl RandomSource for Fixed {
    fn draw_raw(&mut self) -> u32 {
        self.0
    }
}

use Tile::{Blue as P4, Green as P3, Orange as B, Purple as P5, Red as A, Yellow as P2};

fn board() -> Grid<6, 7> {
    let mut cells = [[A; 6]; 7];
    for y in 0..7 {
        for x in 0..6 {
            cells[y][x] = match (y % 2, x % 2) {
                (0, 0) => A,
                (0, _) => B,
                (_, 0) => P2,
                _ => P3,
            };
        }
    }
    Grid { cells }
}

fn released() -> ButtonSet {
    ButtonSet::none()
}

fn with(f: impl Fn(&mut ButtonSet)) -> ButtonSet {
    let mut b = ButtonSet::none();
    f(&mut b);
    b
}

#[test]
fn edge_fires_on_release_only() {
    let mut d = InputEdgeDetector::new();
    let down = with(|b| b.left = true);
    assert_eq!(d.update(down), released());
    assert_eq!(d.update(down), released());
    assert_eq!(d.update(down), released());
    assert_eq!(d.update(released()), down);
    assert_eq!(d.update(released()), released());
}

#[test]
fn edge_counts_each_release() {
    let mut d = InputEdgeDetector::new();
    let levels = [true, false, true, true, false, false, true, false];
    let mut events = 0;
    for l in levels {
        let p = d.update(with(|b| b.swap_down = l));
        if p.swap_down {
            events += 1;
        }
    }
    assert_eq!(events, 3);
}

#[test]
fn edge_step_table() {
    assert_eq!(edge_step(false, true), (true, false));
    assert_eq!(edge_step(true, false), (false, true));
    assert_eq!(edge_step(false, false), (false, false));
    assert_eq!(edge_step(true, true), (true, false));
}

#[test]
fn gamepad_bits_decode() {
    let b = ButtonSet::from_gamepad_bits(1 << 7);
    assert_eq!(b, with(|b| b.up = true));
    let b = ButtonSet::from_gamepad_bits((1 << 9) | (1 << 3) | (1 << 5));
    assert_eq!(b, with(|b| {
        b.left = true;
        b.swap_up = true;
        b.swap_right = true;
    }));
    let b = ButtonSet::from_gamepad_bits(0b11);
    assert_eq!(b, released());
}

#[test]
fn session_starts_clean() {
    let s: GameSession<6, 7> = GameSession::new(InitPolicy::Random, ScoringPolicy::Tiered, &mut ThreadRandom);
    assert_eq!((s.sel_x, s.sel_y, s.score), (3, 3, 0));
    assert!(!scan(&s.grid));
    let small: GameSession<2, 2> = GameSession::new(InitPolicy::PaletteOrder, ScoringPolicy::Cubic, &mut Fixed(0));
    assert_eq!((small.sel_x, small.sel_y), (1, 1));
}

#[test]
fn from_grid_refuses_bad_starts() {
    assert!(GameSession::from_grid(board(), 6, 0, ScoringPolicy::Tiered).is_none());
    assert!(GameSession::from_grid(board(), 0, 7, ScoringPolicy::Tiered).is_none());
    let mut g = board();
    g.cells[0][1] = A;
    g.cells[0][2] = A;
    assert!(GameSession::from_grid(g, 0, 0, ScoringPolicy::Tiered).is_none());
    assert!(GameSession::from_grid(board(), 5, 6, ScoringPolicy::Tiered).is_some());
}

#[test]
fn cursor_moves_stay_on_board() {
    let mut s = GameSession::from_grid(board(), 0, 0, ScoringPolicy::Tiered).unwrap();
    let mut rng = Fixed(0);
    let left = with(|b| b.left = true);
    s.tick(left, &mut rng);
    s.tick(released(), &mut rng);
    assert_eq!((s.sel_x, s.sel_y), (0, 0));
    let down_right = with(|b| {
        b.down = true;
        b.right = true;
    });
    s.tick(down_right, &mut rng);
    let r = s.tick(released(), &mut rng);
    assert!(r.pressed.down && r.pressed.right);
    assert_eq!((s.sel_x, s.sel_y), (1, 1));
    assert_eq!(s.grid, board());
    assert_eq!(s.score, 0);
}

#[test]
fn rejected_swap_keeps_cursor_and_score() {
    let mut s = GameSession::from_grid(board(), 0, 0, ScoringPolicy::Tiered).unwrap();
    let mut rng = Fixed(0);
    let right = with(|b| b.swap_right = true);
    s.tick(right, &mut rng);
    let r = s.tick(released(), &mut rng);
    assert!(r.pressed.swap_right);
    assert!(!r.swapped);
    assert_eq!((s.sel_x, s.sel_y, s.score), (0, 0, 0));
    assert_eq!(s.grid, board());
}

#[test]
fn kept_swap_scores_and_moves_cursor() {
    // row 0: A B A B A B, row 1: Y G Y G Y G; put an A at (1,1) and swap it up
    let mut g = board();
    g.cells[1][1] = A;
    let mut s = GameSession::from_grid(g, 1, 1, ScoringPolicy::Tiered).unwrap();
    let mut rng = Fixed(4);
    let up = with(|b| b.swap_up = true);
    s.tick(up, &mut rng);
    let r = s.tick(released(), &mut rng);
    assert!(r.swapped);
    assert_eq!((s.sel_x, s.sel_y), (1, 0));
    assert!(r.cascade.steps >= 1);
    assert!(s.score >= 1);
    assert!(!scan(&s.grid));
}

#[test]
fn score_never_drops_over_many_ticks() {
    let mut s: GameSession<6, 7> = GameSession::new(InitPolicy::Random, ScoringPolicy::Cubic, &mut ThreadRandom);
    let mut rng = ThreadRandom;
    let script = [
        with(|b| b.swap_up = true),
        with(|b| b.left = true),
        with(|b| b.swap_right = true),
        with(|b| b.down = true),
        with(|b| b.swap_left = true),
        with(|b| b.swap_down = true),
    ];
    let mut last = s.score;
    for round in 0..200 {
        let r = s.tick(script[round % script.len()], &mut rng);
        assert!(s.score >= last);
        if s.score > last {
            assert!(r.cascade.steps > 0);
        }
        last = s.score;
        let r = s.tick(released(), &mut rng);
        assert!(s.score >= last);
        assert_eq!(s.score > last, r.cascade.steps > 0);
        last = s.score;
        assert!(!scan(&s.grid));
        assert!(s.sel_x < 6 && s.sel_y < 7);
    }
}

#[test]
fn pixel_conversion_values() {
    assert_eq!(pixel8_to_pixel32(0x00), 0x000000);
    assert_eq!(pixel8_to_pixel32(0xFF), 0xFFFFFF);
    assert_eq!(pixel8_to_pixel32(0b111_000_00), 0xFF0000);
    assert_eq!(pixel8_to_pixel32(0b000_111_00), 0x00FF00);
    assert_eq!(pixel8_to_pixel32(0b000_000_11), 0x0000FF);
    assert_eq!(pixel8_to_pixel32(0b101_110_11), 0xB6DBFF);
    assert_eq!(pixel8_to_pixel32(0b100_010_01), 0x924955);
}

#[test]
fn window_buffer_conversion() {
    let mut fb = FrameBuffer::filled(0xFF);
    fb.set(3, 4, 0b111_000_00);
    let mut wb = WindowBuffer::new();
    fb_to_wb(&fb, &mut wb);
    assert_eq!(wb.pixels[4][3], 0xFF0000);
    assert_eq!(wb.pixels[0][0], 0xFFFFFF);
    assert_eq!(wb.pixels[239][319], 0xFFFFFF);
}

#[test]
fn erase_text_paints_blocks() {
    let mut fb = FrameBuffer::filled(0x00);
    erase_text(2, 0xFF, &mut fb, (10, 20));
    assert_eq!(fb.get(10, 20), 0xFF);
    assert_eq!(fb.get(25, 27), 0xFF);
    assert_eq!(fb.get(26, 20), 0x00);
    assert_eq!(fb.get(10, 28), 0x00);
    assert_eq!(fb.get(9, 20), 0x00);
    let painted = fb.pixels.iter().flatten().filter(|p| **p == 0xFF).count();
    assert_eq!(painted, 2 * 8 * 8);
}

#[test]
fn short_wait_returns() {
    wait_for_millis(1);
    wait_for_millis(0);
}

#[test]
fn ball_holds_its_fields() {
    let b = Ball::new(10, 10, 1, -1);
    assert_eq!((b.x, b.y, b.dx, b.dy), (10, 10, 1, -1));
    let _ = (P4, P5);
}

#[test]
fn tick_phases_compose() {
    let mut g = board();
    g.cells[1][1] = A;
    let mut s = GameSession::from_grid(g, 1, 1, ScoringPolicy::Cubic).unwrap();
    let mut rng = Fixed(5);
    s.apply_input(with(|b| b.swap_up = true));
    let r = s.apply_input(released());
    assert!(r.pressed.swap_up);
    assert!(r.swapped);
    assert_eq!((s.sel_x, s.sel_y), (1, 0));
    assert!(scan(&s.grid));
    assert_eq!(s.score, 0);

    let step = s.cascade_once(&mut rng).unwrap();
    assert_eq!(step.region.count, 3);
    assert_eq!(step.points, 27);
    assert_eq!(s.score, 27);
    assert_eq!((step.region.ymin, step.region.ymax), (0, 0));

    let out = s.settle(&mut rng);
    assert!(!scan(&s.grid));
    assert_eq!(s.score, 27 + out.points);
    assert!(s.cascade_once(&mut rng).is_none());
}

#[test]
fn rejected_input_leaves_nothing_to_cascade() {
    let mut s = GameSession::from_grid(board(), 2, 2, ScoringPolicy::Tiered).unwrap();
    s.apply_input(with(|b| b.swap_left = true));
    let r = s.apply_input(released());
    assert!(r.pressed.swap_left);
    assert!(!r.swapped);
    assert!(s.cascade_once(&mut Fixed(0)).is_none());
    let out = s.settle(&mut Fixed(0));
    assert_eq!((out.steps, out.points), (0, 0));
    assert_eq!(s.grid, board());
}
