use candy_crvsh::grid::Grid;
use candy_crvsh::render::{
    draw_tile, render_grid, render_grid_old, FrameBuffer, Sprite, TileSprites, CURSOR_COLOR,
    TILE_SIZE, X_MARGIN, Y_MARGIN,
};
use candy_crvsh::text::{render_number, render_text, Font};
use candy_crvsh::tile::Tile;

fn plain(c: u8) -> Sprite {
    Sprite { pixels: [[c; TILE_SIZE]; TILE_SIZE] }
}

fn sprites() -> TileSprites {
    TileSprites {
        red: plain(10),
        orange: plain(20),
        yellow: plain(30),
        green: plain(40),
        blue: plain(50),
        purple: plain(60),
    }
}

fn board() -> Grid<6, 7> {
    let order = [Tile::Red, Tile::Orange, Tile::Yellow, Tile::Green, Tile::Blue, Tile::Purple];
    let mut cells = [[Tile::Red; 6]; 7];
    for y in 0..7 {
        for x in 0..6 {
            cells[y][x] = order[(x + 2 * y) % 6];
        }
    }
    Grid { cells }
}

#[test]
fn margins_centre_the_board() {
    assert_eq!(Y_MARGIN, 8);
    assert_eq!(X_MARGIN, 0);
}

#[test]
fn tile_with_cursor_border() {
    let mut fb = FrameBuffer::filled(0xFF);
    let mut s = plain(7);
    s.pixels[10][12] = 9;
    draw_tile(&mut fb, &s, 100, 50, true);
    assert_eq!(fb.get(100, 50), CURSOR_COLOR);
    assert_eq!(fb.get(102, 70), CURSOR_COLOR);
    assert_eq!(fb.get(131, 81), CURSOR_COLOR);
    assert_eq!(fb.get(103, 53), 7);
    assert_eq!(fb.get(112, 60), 9);
    assert_eq!(fb.get(132, 60), 0xFF);
    assert_eq!(fb.get(99, 60), 0xFF);
    draw_tile(&mut fb, &s, 100, 50, false);
    assert_eq!(fb.get(100, 50), 7);
}

#[test]
fn whole_board_is_drawn() {
    let mut fb = FrameBuffer::filled(0xFF);
    let g = board();
    render_grid(&g, &sprites(), Some((1, 1)), (0, 0), (6, 7), &mut fb, (X_MARGIN, Y_MARGIN));
    // cell (0,0) is red, cell (2,3) is order[(2+6)%6] = yellow
    assert_eq!(fb.get(5, 8 + 5), 10);
    assert_eq!(fb.get(2 * 32 + 16, 8 + 3 * 32 + 16), 30);
    // the selected cell (1,1) has its border and keeps its middle
    assert_eq!(fb.get(32, 8 + 32), CURSOR_COLOR);
    assert_eq!(fb.get(32 + 16, 8 + 32 + 16), 40);
    // outside the board
    assert_eq!(fb.get(200, 100), 0xFF);
    assert_eq!(fb.get(10, 4), 0xFF);
    assert_eq!(fb.get(10, 232), 0xFF);
}

#[test]
fn part_of_the_board_is_drawn_where_asked() {
    let mut fb = FrameBuffer::filled(0xFF);
    let g = board();
    // cells (2..4, 0..1) drawn from screen position (64, 20)
    render_grid(&g, &sprites(), None, (2, 0), (4, 1), &mut fb, (64, 20));
    assert_eq!(fb.get(64, 20), 30);
    assert_eq!(fb.get(96 + 31, 20 + 31), 40);
    assert_eq!(fb.get(128, 20), 0xFF);
    assert_eq!(fb.get(64, 52), 0xFF);
    assert_eq!(fb.get(63, 20), 0xFF);
}

#[test]
fn old_renderer_draws_at_the_margins() {
    let mut fb = FrameBuffer::filled(0xFF);
    render_grid_old(&board(), &sprites(), &mut fb, 5, 6);
    assert_eq!(fb.get(0, 8), 10);
    assert_eq!(fb.get(5 * 32, 8 + 6 * 32), CURSOR_COLOR);
    assert_eq!(fb.get(5 * 32 + 10, 8 + 6 * 32 + 10), 60);
    assert_eq!(fb.get(0, 7), 0xFF);
}

fn font() -> Font {
    let mut glyphs = [[0u8; 8]; 128];
    glyphs[b'A' as usize][0] = 0b0000_0001;
    glyphs[b'A' as usize][7] = 0b1000_0000;
    for d in b'0'..=b'9' {
        glyphs[d as usize] = [0xFF; 8];
    }
    Font { glyphs }
}

#[test]
fn text_sets_glyph_bits() {
    let mut fb = FrameBuffer::filled(0xFF);
    assert!(render_text("AA", 0x00, &mut fb, (10, 20), &font()));
    assert_eq!(fb.get(10, 20), 0x00);
    assert_eq!(fb.get(11, 20), 0xFF);
    assert_eq!(fb.get(17, 27), 0x00);
    assert_eq!(fb.get(18, 20), 0x00);
    assert_eq!(fb.get(25, 27), 0x00);
    let dark = fb.pixels.iter().flatten().filter(|p| **p == 0).count();
    assert_eq!(dark, 4);
}

#[test]
fn text_refuses_non_ascii_and_overflow() {
    let mut fb = FrameBuffer::filled(0xFF);
    let before = fb;
    assert!(!render_text("A\u{e9}", 0x00, &mut fb, (0, 0), &font()));
    assert!(!render_text("AAAA", 0x00, &mut fb, (300, 0), &font()));
    assert!(!render_text("A", 0x00, &mut fb, (0, 233), &font()));
    assert_eq!(fb, before);
    assert!(!render_text("", 0x00, &mut fb, (320, 240), &font()));
    assert!(render_text("", 0x00, &mut fb, (320, 232), &font()));
}

#[test]
fn numbers_are_drawn_in_decimal() {
    let mut fb = FrameBuffer::filled(0xFF);
    assert!(render_number(128, 0x00, &mut fb, (210, 96), &font()));
    let dark = fb.pixels.iter().flatten().filter(|p| **p == 0).count();
    assert_eq!(dark, 3 * 64);
    assert_eq!(fb.get(210 + 23, 96 + 7), 0x00);
    assert_eq!(fb.get(210 + 24, 96), 0xFF);

    let mut fb = FrameBuffer::filled(0xFF);
    assert!(render_number(0, 0x00, &mut fb, (0, 0), &font()));
    let dark = fb.pixels.iter().flatten().filter(|p| **p == 0).count();
    assert_eq!(dark, 64);

    let mut fb = FrameBuffer::filled(0xFF);
    assert!(!render_number(u64::MAX, 0x00, &mut fb, (210, 96), &font()));
    assert!(render_number(u64::MAX, 0x00, &mut fb, (0, 96), &font()));
    let dark = fb.pixels.iter().flatten().filter(|p| **p == 0).count();
    assert_eq!(dark, 20 * 64);
}

use candy_crvsh::cascade::MatchRegion;
use candy_crvsh::render::{fall_frame, fall_pixels, paint_row, BACKGROUND_COLOR};
use candy_crvsh::text::{render_scoreboard, PANEL_X, SCORE_VALUE_Y};

#[test]
fn row_painting() {
    let mut fb = FrameBuffer::filled(0x00);
    paint_row(&mut fb, 5, 10, 20, 0xAB);
    assert_eq!(fb.get(10, 5), 0xAB);
    assert_eq!(fb.get(19, 5), 0xAB);
    assert_eq!(fb.get(20, 5), 0x00);
    assert_eq!(fb.get(10, 6), 0x00);
    paint_row(&mut fb, 6, 20, 10, 0xAB);
    assert_eq!(fb.get(15, 6), 0x00);
}

#[test]
fn fall_of_a_top_match_blanks_rows() {
    let region = MatchRegion { xmin: 1, xmax: 3, ymin: 0, ymax: 0, count: 3 };
    assert_eq!(fall_pixels(&region), 32);
    let mut fb = FrameBuffer::filled(0x00);
    fall_frame(&board(), &sprites(), &region, 32, &mut fb);
    assert_eq!(fb.get(32, Y_MARGIN + 32), BACKGROUND_COLOR);
    assert_eq!(fb.get(4 * 32 - 1, Y_MARGIN + 32), BACKGROUND_COLOR);
    assert_eq!(fb.get(4 * 32, Y_MARGIN + 32), 0x00);
    assert_eq!(fb.get(32, Y_MARGIN + 31), 0x00);
}

#[test]
fn fall_of_a_lower_match_shifts_cells_above() {
    let region = MatchRegion { xmin: 0, xmax: 0, ymin: 2, ymax: 4, count: 3 };
    assert_eq!(fall_pixels(&region), 96);
    let mut fb = FrameBuffer::filled(0x01);
    fall_frame(&board(), &sprites(), &region, 5, &mut fb);
    // cells (0,0) red and (0,1) yellow, moved down by 5 pixels
    assert_eq!(fb.get(0, Y_MARGIN + 5), 10);
    assert_eq!(fb.get(31, Y_MARGIN + 36), 10);
    assert_eq!(fb.get(0, Y_MARGIN + 37), 30);
    assert_eq!(fb.get(0, Y_MARGIN + 4), 0x01);
    assert_eq!(fb.get(32, Y_MARGIN + 5), 0x01);
    assert_eq!(fb.get(0, Y_MARGIN + 69), 0x01);
}

#[test]
fn scoreboard_clears_field_then_draws() {
    let mut fb = FrameBuffer::filled(0x00);
    assert!(render_scoreboard(&mut fb, 7, &font()));
    // the digit cell is fully set, the rest of the field cleared to the background
    assert_eq!(fb.get(PANEL_X, SCORE_VALUE_Y), 0x00);
    assert_eq!(fb.get(PANEL_X + 8, SCORE_VALUE_Y), BACKGROUND_COLOR);
    assert_eq!(fb.get(PANEL_X + 63, SCORE_VALUE_Y + 7), BACKGROUND_COLOR);
    assert_eq!(fb.get(PANEL_X + 64, SCORE_VALUE_Y), 0x00);
    let light = fb.pixels.iter().flatten().filter(|p| **p == BACKGROUND_COLOR).count();
    assert_eq!(light, 7 * 64);
}
