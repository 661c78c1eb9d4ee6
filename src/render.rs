use vstd::prelude::*;
use crate::tile::Tile;
use crate::grid::{Grid, GRID_HEIGHT};
use crate::cascade::MatchRegion;

verus! {

/// Width of the screen in pixels.
pub const SCREEN_WIDTH: usize = 320;
/// Height of the screen in pixels.
pub const SCREEN_HEIGHT: usize = 240;

/// The screen as 8-bit pixels, `RRRGGGBB`, row by row.
#[derive(Clone, Copy, Debug, PartialEq, Eq)]
pub struct FrameBuffer {
    pub pixels: [[u8; SCREEN_WIDTH]; SCREEN_HEIGHT],
}

/// The screen as 32-bit `00RRGGBB` pixels, row by row, as a desktop window takes them.
#[derive(Clone, Copy, Debug, PartialEq, Eq)]
pub struct WindowBuffer {
    pub pixels: [[u32; SCREEN_WIDTH]; SCREEN_HEIGHT],
}

impl FrameBuffer {
    /// The pixel in column `x` of row `y`.
    pub open spec fn px(&self, x: int, y: int) -> u8 {
        self.pixels@[y]@[x]
    }

    /// Sets the pixel in column `x` of row `y`, keeping every other pixel.
    pub fn set(&mut self, x: usize, y: usize, color: u8)
        requires
            x < SCREEN_WIDTH,
            y < SCREEN_HEIGHT,
        ensures
            final(self).px(x as int, y as int) == color,
            forall|i: int, j: int|
                0 <= i < SCREEN_WIDTH && 0 <= j < SCREEN_HEIGHT && !(i == x && j == y)
                    ==> #[trigger] final(self).px(i, j) == old(self).px(i, j),
    {
        self.pixels[y][x] = color;
    }

    /// The pixel in column `x` of row `y`.
    pub fn get(&self, x: usize, y: usize) -> (c: u8)
        requires
            x < SCREEN_WIDTH,
            y < SCREEN_HEIGHT,
        ensures
            c == self.px(x as int, y as int),
    {
        self.pixels[y][x]
    }

    /// A screen filled with `color`.
    pub fn filled(color: u8) -> (fb: FrameBuffer)
        ensures
            forall|x: int, y: int|
                0 <= x < SCREEN_WIDTH && 0 <= y < SCREEN_HEIGHT ==> #[trigger] fb.px(x, y) == color,
    {
        FrameBuffer { pixels: [[color; SCREEN_WIDTH]; SCREEN_HEIGHT] }
    }
}

impl WindowBuffer {
    /// The pixel in column `x` of row `y`.
    pub open spec fn px(&self, x: int, y: int) -> u32 {
        self.pixels@[y]@[x]
    }

    /// Sets the pixel in column `x` of row `y`, keeping every other pixel.
    pub fn set(&mut self, x: usize, y: usize, color: u32)
        requires
            x < SCREEN_WIDTH,
            y < SCREEN_HEIGHT,
        ensures
            final(self).px(x as int, y as int) == color,
            forall|i: int, j: int|
                0 <= i < SCREEN_WIDTH && 0 <= j < SCREEN_HEIGHT && !(i == x && j == y)
                    ==> #[trigger] final(self).px(i, j) == old(self).px(i, j),
    {
        self.pixels[y][x] = color;
    }

    /// A black window.
    pub fn new() -> (wb: WindowBuffer)
        ensures
            forall|x: int, y: int|
                0 <= x < SCREEN_WIDTH && 0 <= y < SCREEN_HEIGHT ==> #[trigger] wb.px(x, y) == 0,
    {
        WindowBuffer { pixels: [[0u32; SCREEN_WIDTH]; SCREEN_HEIGHT] }
    }
}

/// Width and height of a tile sprite in pixels.
pub const TILE_SIZE: usize = 32;
/// Colour of the background.
pub const BACKGROUND_COLOR: u8 = 0xFF;
/// Colour of the cursor border.
pub const CURSOR_COLOR: u8 = 0x00;
/// Left margin of the board on the screen.
pub const X_MARGIN: usize = 0;
/// Top margin of the board on the screen: the board is centred vertically.
pub const Y_MARGIN: usize = (SCREEN_HEIGHT - TILE_SIZE * GRID_HEIGHT) / 2;

/// The picture of one tile, row by row.
#[derive(Clone, Copy, Debug, PartialEq, Eq)]
pub struct Sprite {
    pub pixels: [[u8; TILE_SIZE]; TILE_SIZE],
}

impl Sprite {
    /// The pixel in column `x` of row `y`.
    pub open spec fn px(&self, x: int, y: int) -> u8 {
        self.pixels@[y]@[x]
    }

    /// The pixel in column `x` of row `y`.
    pub fn get(&self, x: usize, y: usize) -> (c: u8)
        requires
            x < TILE_SIZE,
            y < TILE_SIZE,
        ensures
            c == self.px(x as int, y as int),
    {
        self.pixels[y][x]
    }
}

/// One sprite per colour of the palette.
#[derive(Clone, Copy, Debug, PartialEq, Eq)]
pub struct TileSprites {
    pub red: Sprite,
    pub orange: Sprite,
    pub yellow: Sprite,
    pub green: Sprite,
    pub blue: Sprite,
    pub purple: Sprite,
}

impl TileSprites {
    /// The sprite of tile `t`.
    pub open spec fn of(&self, t: Tile) -> Sprite {
        match t {
            Tile::Red => self.red,
            Tile::Orange => self.orange,
            Tile::Yellow => self.yellow,
            Tile::Green => self.green,
            Tile::Blue => self.blue,
            Tile::Purple => self.purple,
        }
    }

    /// The sprite of tile `t`.
    pub fn sprite(&self, t: Tile) -> (s: &Sprite)
        ensures
            *s == self.of(t),
    {
        match t {
            Tile::Red => &self.red,
            Tile::Orange => &self.orange,
            Tile::Yellow => &self.yellow,
            Tile::Green => &self.green,
            Tile::Blue => &self.blue,
            Tile::Purple => &self.purple,
        }
    }
}

/// Pixel `(tx, ty)` of a tile lies in the three-pixel cursor border.
pub open spec fn on_border(tx: int, ty: int) -> bool {
    ty <= 2 || ty >= TILE_SIZE - 3 || tx <= 2 || tx >= TILE_SIZE - 3
}

/// Pixel `(tx, ty)` of a drawn tile: the sprite, or the cursor colour on the border of
/// a selected tile.
pub open spec fn tile_pixel(s: Sprite, tx: int, ty: int, selected: bool) -> u8 {
    if selected && on_border(tx, ty) {
        CURSOR_COLOR
    } else {
        s.px(tx, ty)
    }
}

/// Screen pixel `(x, y)` lies in the block of `TILE_SIZE` pixels square at `(px, py)`.
pub open spec fn in_block(px: int, py: int, x: int, y: int) -> bool {
    px <= x < px + TILE_SIZE && py <= y < py + TILE_SIZE
}

/// Draws `sprite` with its top-left corner at `(px, py)`, and a cursor border on it when
/// `selected`; every pixel outside the block is kept.
pub fn draw_tile(screen: &mut FrameBuffer, sprite: &Sprite, px: usize, py: usize, selected: bool)
    requires
        px + TILE_SIZE <= SCREEN_WIDTH,
        py + TILE_SIZE <= SCREEN_HEIGHT,
    ensures
        forall|x: int, y: int|
            0 <= x < SCREEN_WIDTH && 0 <= y < SCREEN_HEIGHT ==> #[trigger] final(screen).px(x, y) == if in_block(
                px as int,
                py as int,
                x,
                y,
            ) {
                tile_pixel(*sprite, x - px, y - py, selected)
            } else {
                old(screen).px(x, y)
            },
{
    let ghost s0 = *screen;
    let mut ty: usize = 0;
    while ty < TILE_SIZE
        invariant
            ty <= TILE_SIZE,
            px + TILE_SIZE <= SCREEN_WIDTH,
            py + TILE_SIZE <= SCREEN_HEIGHT,
            forall|x: int, y: int|
                0 <= x < SCREEN_WIDTH && 0 <= y < SCREEN_HEIGHT ==> #[trigger] screen.px(x, y) == if in_block(
                    px as int,
                    py as int,
                    x,
                    y,
                ) && y < py + ty {
                    sprite.px(x - px, y - py)
                } else {
                    s0.px(x, y)
                },
        decreases TILE_SIZE - ty,
    {
        let mut tx: usize = 0;
        while tx < TILE_SIZE
            invariant
                tx <= TILE_SIZE,
                ty < TILE_SIZE,
                px + TILE_SIZE <= SCREEN_WIDTH,
                py + TILE_SIZE <= SCREEN_HEIGHT,
                forall|x: int, y: int|
                    0 <= x < SCREEN_WIDTH && 0 <= y < SCREEN_HEIGHT ==> #[trigger] screen.px(x, y) == if in_block(
                        px as int,
                        py as int,
                        x,
                        y,
                    ) && (y < py + ty || (y == py + ty && x < px + tx)) {
                        sprite.px(x - px, y - py)
                    } else {
                        s0.px(x, y)
                    },
            decreases TILE_SIZE - tx,
        {
            screen.set(px + tx, py + ty, sprite.get(tx, ty));
            tx += 1;
        }
        ty += 1;
    }
    if selected {
        let ghost s1 = *screen;
        let mut ty: usize = 0;
        while ty < TILE_SIZE
            invariant
                ty <= TILE_SIZE,
                px + TILE_SIZE <= SCREEN_WIDTH,
                py + TILE_SIZE <= SCREEN_HEIGHT,
                forall|x: int, y: int|
                    0 <= x < SCREEN_WIDTH && 0 <= y < SCREEN_HEIGHT ==> #[trigger] screen.px(x, y) == if in_block(
                        px as int,
                        py as int,
                        x,
                        y,
                    ) && y < py + ty && on_border(x - px, y - py) {
                        CURSOR_COLOR
                    } else {
                        s1.px(x, y)
                    },
            decreases TILE_SIZE - ty,
        {
            let mut tx: usize = 0;
            while tx < TILE_SIZE
                invariant
                    tx <= TILE_SIZE,
                    ty < TILE_SIZE,
                    px + TILE_SIZE <= SCREEN_WIDTH,
                    py + TILE_SIZE <= SCREEN_HEIGHT,
                    forall|x: int, y: int|
                        0 <= x < SCREEN_WIDTH && 0 <= y < SCREEN_HEIGHT ==> #[trigger] screen.px(x, y) == if in_block(
                            px as int,
                            py as int,
                            x,
                            y,
                        ) && (y < py + ty || (y == py + ty && x < px + tx)) && on_border(
                            x - px,
                            y - py,
                        ) {
                            CURSOR_COLOR
                        } else {
                            s1.px(x, y)
                        },
                decreases TILE_SIZE - tx,
            {
                if ty <= 2 || ty >= TILE_SIZE - 3 || tx <= 2 || tx >= TILE_SIZE - 3 {
                    screen.set(px + tx, py + ty, CURSOR_COLOR);
                }
                tx += 1;
            }
            ty += 1;
        }
    }
}

/// The screen coordinate where cell `c` starts, when cell `tl` is drawn at `start`.
pub open spec fn cell_origin(start: int, tl: int, c: int) -> int {
    start + (c - tl) * TILE_SIZE
}

/// Cell `(cx, cy)` of `grid` appears on `screen` as its sprite, with the cursor border
/// where it is the selected cell, in the block where cell `tl` drawn at `start` puts it.
pub open spec fn cell_drawn<const W: usize, const H: usize>(
    screen: FrameBuffer,
    grid: Grid<W, H>,
    sprites: TileSprites,
    selected: Option<(usize, usize)>,
    tl: (usize, usize),
    start: (usize, usize),
    cx: int,
    cy: int,
) -> bool {
    let ox = cell_origin(start.0 as int, tl.0 as int, cx);
    let oy = cell_origin(start.1 as int, tl.1 as int, cy);
    forall|x: int, y: int|
        0 <= x < SCREEN_WIDTH && 0 <= y < SCREEN_HEIGHT && in_block(ox, oy, x, y) ==> #[trigger] screen.px(x, y)
            == tile_pixel(
            sprites.of(grid.at(cx, cy)),
            x - ox,
            y - oy,
            selected == Some((cx as usize, cy as usize)),
        )
}

/// Screen pixel `(x, y)` lies in the rectangle that cells `tl` to `br` (exclusive) take
/// when cell `tl` is drawn at `start`.
pub open spec fn in_area(tl: (usize, usize), br: (usize, usize), start: (usize, usize), x: int, y: int) -> bool {
    &&& start.0 <= x < cell_origin(start.0 as int, tl.0 as int, br.0 as int)
    &&& start.1 <= y < cell_origin(start.1 as int, tl.1 as int, br.1 as int)
}

/// Draws the cells from `grid_tl` to `grid_br` (exclusive) of `grid`, with cell
/// `grid_tl` at screen position `render_start` and the others in a raster of
/// `TILE_SIZE` pixels; the selected cell, if drawn, gets the cursor border. Every pixel
/// outside that rectangle is kept.
pub fn render_grid<const W: usize, const H: usize>(
    grid: &Grid<W, H>,
    sprites: &TileSprites,
    grid_selected: Option<(usize, usize)>,
    grid_tl: (usize, usize),
    grid_br: (usize, usize),
    screen: &mut FrameBuffer,
    render_start: (usize, usize),
)
    requires
        grid_tl.0 <= grid_br.0 <= W,
        grid_tl.1 <= grid_br.1 <= H,
        render_start.0 + (grid_br.0 - grid_tl.0) * TILE_SIZE <= SCREEN_WIDTH,
        render_start.1 + (grid_br.1 - grid_tl.1) * TILE_SIZE <= SCREEN_HEIGHT,
    ensures
        forall|cx: int, cy: int|
            grid_tl.0 <= cx < grid_br.0 && grid_tl.1 <= cy < grid_br.1 ==> #[trigger] cell_drawn(
                *final(screen),
                *grid,
                *sprites,
                grid_selected,
                grid_tl,
                render_start,
                cx,
                cy,
            ),
        forall|x: int, y: int|
            0 <= x < SCREEN_WIDTH && 0 <= y < SCREEN_HEIGHT && !in_area(grid_tl, grid_br, render_start, x, y)
                ==> #[trigger] final(screen).px(x, y) == old(screen).px(x, y),
{
    let ghost s0 = *screen;
    let mut y: usize = grid_tl.1;
    while y < grid_br.1
        invariant
            grid_tl.0 <= grid_br.0 <= W,
            grid_tl.1 <= y <= grid_br.1 <= H,
            render_start.0 + (grid_br.0 - grid_tl.0) * TILE_SIZE <= SCREEN_WIDTH,
            render_start.1 + (grid_br.1 - grid_tl.1) * TILE_SIZE <= SCREEN_HEIGHT,
            forall|cx: int, cy: int|
                grid_tl.0 <= cx < grid_br.0 && grid_tl.1 <= cy < y ==> #[trigger] cell_drawn(
                    *screen,
                    *grid,
                    *sprites,
                    grid_selected,
                    grid_tl,
                    render_start,
                    cx,
                    cy,
                ),
            forall|x: int, y: int|
                0 <= x < SCREEN_WIDTH && 0 <= y < SCREEN_HEIGHT && !in_area(grid_tl, grid_br, render_start, x, y)
                    ==> #[trigger] screen.px(x, y) == s0.px(x, y),
        decreases grid_br.1 - y,
    {
        let mut x: usize = grid_tl.0;
        while x < grid_br.0
            invariant
                grid_tl.0 <= x <= grid_br.0 <= W,
                grid_tl.1 <= y < grid_br.1 <= H,
                render_start.0 + (grid_br.0 - grid_tl.0) * TILE_SIZE <= SCREEN_WIDTH,
                render_start.1 + (grid_br.1 - grid_tl.1) * TILE_SIZE <= SCREEN_HEIGHT,
                forall|cx: int, cy: int|
                    grid_tl.0 <= cx < grid_br.0 && grid_tl.1 <= cy <= y && (cy < y || cx < x)
                        ==> #[trigger] cell_drawn(
                        *screen,
                        *grid,
                        *sprites,
                        grid_selected,
                        grid_tl,
                        render_start,
                        cx,
                        cy,
                    ),
                forall|x: int, y: int|
                    0 <= x < SCREEN_WIDTH && 0 <= y < SCREEN_HEIGHT && !in_area(grid_tl, grid_br, render_start, x, y)
                        ==> #[trigger] screen.px(x, y) == s0.px(x, y),
            decreases grid_br.0 - x,
        {
            let ox = render_start.0 + (x - grid_tl.0) * TILE_SIZE;
            let oy = render_start.1 + (y - grid_tl.1) * TILE_SIZE;
            let selected = match grid_selected {
                Some(c) => c.0 == x && c.1 == y,
                None => false,
            };
            let ghost before = *screen;
            draw_tile(screen, sprites.sprite(grid.get(x, y)), ox, oy, selected);
            proof {
                assert forall|cx: int, cy: int|
                    grid_tl.0 <= cx < grid_br.0 && grid_tl.1 <= cy <= y && (cy < y || cx <= x)
                        implies #[trigger] cell_drawn(
                        *screen,
                        *grid,
                        *sprites,
                        grid_selected,
                        grid_tl,
                        render_start,
                        cx,
                        cy,
                    ) by {
                    let cox = cell_origin(render_start.0 as int, grid_tl.0 as int, cx);
                    let coy = cell_origin(render_start.1 as int, grid_tl.1 as int, cy);
                    assert forall|px: int, py: int|
                        0 <= px < SCREEN_WIDTH && 0 <= py < SCREEN_HEIGHT && in_block(cox, coy, px, py)
                            implies #[trigger] screen.px(px, py) == tile_pixel(
                            sprites.of(grid.at(cx, cy)),
                            px - cox,
                            py - coy,
                            grid_selected == Some((cx as usize, cy as usize)),
                        ) by {
                        if cx == x && cy == y {
                        } else {
                            assert(!in_block(ox as int, oy as int, px, py));
                            assert(cell_drawn(before, *grid, *sprites, grid_selected, grid_tl, render_start, cx, cy));
                            assert(before.px(px, py) == screen.px(px, py));
                        }
                    }
                }
            }
            x += 1;
        }
        y += 1;
    }
}

/// Draws the whole board at the board's margins, with the cursor border on the cell
/// `(selected_x, selected_y)`.
pub fn render_grid_old<const W: usize, const H: usize>(
    grid: &Grid<W, H>,
    sprites: &TileSprites,
    buffer: &mut FrameBuffer,
    selected_x: usize,
    selected_y: usize,
)
    requires
        X_MARGIN + W * TILE_SIZE <= SCREEN_WIDTH,
        Y_MARGIN + H * TILE_SIZE <= SCREEN_HEIGHT,
    ensures
        forall|cx: int, cy: int|
            0 <= cx < W && 0 <= cy < H ==> #[trigger] cell_drawn(
                *final(buffer),
                *grid,
                *sprites,
                Some((selected_x, selected_y)),
                (0, 0),
                (X_MARGIN, Y_MARGIN),
                cx,
                cy,
            ),
        forall|x: int, y: int|
            0 <= x < SCREEN_WIDTH && 0 <= y < SCREEN_HEIGHT && !in_area((0, 0), (W, H), (X_MARGIN, Y_MARGIN), x, y)
                ==> #[trigger] final(buffer).px(x, y) == old(buffer).px(x, y),
{
    render_grid(grid, sprites, Some((selected_x, selected_y)), (0, 0), (W, H), buffer, (X_MARGIN, Y_MARGIN));
}

/// Paints pixels `x0..x1` of row `y` in `color`, keeping every other pixel.
pub fn paint_row(screen: &mut FrameBuffer, y: usize, x0: usize, x1: usize, color: u8)
    requires
        y < SCREEN_HEIGHT,
        x1 <= SCREEN_WIDTH,
    ensures
        forall|x: int, yy: int|
            0 <= x < SCREEN_WIDTH && 0 <= yy < SCREEN_HEIGHT ==> #[trigger] final(screen).px(x, yy) == if yy == y
                && x0 <= x < x1 {
                color
            } else {
                old(screen).px(x, yy)
            },
{
    let ghost s0 = *screen;
    let mut x: usize = x0;
    while x < x1
        invariant
            y < SCREEN_HEIGHT,
            x1 <= SCREEN_WIDTH,
            x0 <= x,
            forall|i: int, j: int|
                0 <= i < SCREEN_WIDTH && 0 <= j < SCREEN_HEIGHT ==> #[trigger] screen.px(i, j) == if j == y
                    && x0 <= i < x && i < x1 {
                    color
                } else {
                    s0.px(i, j)
                },
        decreases x1 - x,
    {
        screen.set(x, y, color);
        x += 1;
    }
}

/// How far, in pixels, the tiles above a matched region fall: the region's height.
pub open spec fn fall_distance(r: MatchRegion) -> int {
    (r.ymax - r.ymin + 1) * TILE_SIZE
}

/// How far, in pixels, the tiles above `r` fall.
pub fn fall_pixels(r: &MatchRegion) -> (d: usize)
    requires
        r.ymin <= r.ymax < SCREEN_HEIGHT,
    ensures
        d == fall_distance(*r),
{
    (r.ymax - r.ymin + 1) * TILE_SIZE
}

/// Screen column where the animation of `r` starts.
pub open spec fn fall_left(r: MatchRegion) -> int {
    r.xmin * TILE_SIZE + X_MARGIN
}

/// Screen column where the animation of `r` ends (exclusive).
pub open spec fn fall_right(r: MatchRegion) -> int {
    r.xmax * TILE_SIZE + X_MARGIN + TILE_SIZE
}

/// Frame `ys` of the animation of a matched region, on a board drawn at the margins.
/// Where the region touches the top row, the frame blanks screen row `Y_MARGIN + ys`
/// across the region's columns; otherwise it draws the cells above the region, across
/// its columns, moved down by `ys` pixels.
pub fn fall_frame<const W: usize, const H: usize>(
    grid: &Grid<W, H>,
    sprites: &TileSprites,
    region: &MatchRegion,
    ys: usize,
    screen: &mut FrameBuffer,
)
    requires
        region.xmin <= region.xmax < W,
        region.ymin <= region.ymax < H,
        X_MARGIN + W * TILE_SIZE <= SCREEN_WIDTH,
        Y_MARGIN + H * TILE_SIZE < SCREEN_HEIGHT,
        ys <= fall_distance(*region),
    ensures
        region.ymin == 0 ==> forall|x: int, y: int|
            0 <= x < SCREEN_WIDTH && 0 <= y < SCREEN_HEIGHT ==> #[trigger] final(screen).px(x, y) == if y == Y_MARGIN
                + ys && fall_left(*region) <= x < fall_right(*region) {
                BACKGROUND_COLOR
            } else {
                old(screen).px(x, y)
            },
        region.ymin > 0 ==> forall|cx: int, cy: int|
            region.xmin <= cx <= region.xmax && 0 <= cy < region.ymin ==> #[trigger] cell_drawn(
                *final(screen),
                *grid,
                *sprites,
                None,
                (region.xmin, 0),
                ((region.xmin * TILE_SIZE + X_MARGIN) as usize, (Y_MARGIN + ys) as usize),
                cx,
                cy,
            ),
        region.ymin > 0 ==> forall|x: int, y: int|
            0 <= x < SCREEN_WIDTH && 0 <= y < SCREEN_HEIGHT && !in_area(
                (region.xmin, 0),
                ((region.xmax + 1) as usize, region.ymin),
                ((region.xmin * TILE_SIZE + X_MARGIN) as usize, (Y_MARGIN + ys) as usize),
                x,
                y,
            ) ==> #[trigger] final(screen).px(x, y) == old(screen).px(x, y),
{
    let left = region.xmin * TILE_SIZE + X_MARGIN;
    if region.ymin == 0 {
        let right = region.xmax * TILE_SIZE + X_MARGIN + TILE_SIZE;
        paint_row(screen, Y_MARGIN + ys, left, right, BACKGROUND_COLOR);
    } else {
        render_grid(
            grid,
            sprites,
            None,
            (region.xmin, 0),
            (region.xmax + 1, region.ymin),
            screen,
            (left, Y_MARGIN + ys),
        );
    }
}

/// A 3-bit channel widened to 8 bits by repeating its bits: `abc` becomes `abcabcab`.
pub open spec fn widen3(c: u8) -> u8 {
    ((c << 5u8) | (c << 2u8) | (c >> 1u8)) as u8
}

/// A 2-bit channel widened to 8 bits by repeating its bits: `ab` becomes `abababab`.
pub open spec fn widen2(c: u8) -> u8 {
    ((c << 6u8) | (c << 4u8) | (c << 2u8) | c) as u8
}

/// The 32-bit colour of an 8-bit `RRRGGGBB` pixel: each channel widened to 8 bits,
/// packed as `00RRGGBB`.
pub open spec fn pixel32_of(pixel: u8) -> u32 {
    let red = widen3((pixel >> 5u8) & 7u8);
    let green = widen3((pixel >> 2u8) & 7u8);
    let blue = widen2(pixel & 3u8);
    ((red as u32) << 16u32) | ((green as u32) << 8u32) | (blue as u32)
}

/// Converts an 8-bit `RRRGGGBB` pixel to a 32-bit `00RRGGBB` one.
pub fn pixel8_to_pixel32(pixel: u8) -> (r: u32)
    ensures
        r == pixel32_of(pixel),
{
    let red = (pixel >> 5u8) & 7u8;
    let green = (pixel >> 2u8) & 7u8;
    let blue = pixel & 3u8;
    let red = (red << 5u8) | (red << 2u8) | (red >> 1u8);
    let green = (green << 5u8) | (green << 2u8) | (green >> 1u8);
    let blue = (blue << 6u8) | (blue << 4u8) | (blue << 2u8) | blue;
    ((red as u32) << 16u32) | ((green as u32) << 8u32) | (blue as u32)
}

/// Converts every pixel of the screen into the window buffer.
pub fn fb_to_wb(fbuf: &FrameBuffer, winbuf: &mut WindowBuffer)
    ensures
        forall|x: int, y: int|
            0 <= x < SCREEN_WIDTH && 0 <= y < SCREEN_HEIGHT ==> #[trigger] final(winbuf).px(x, y)
                == pixel32_of(fbuf.px(x, y)),
{
    let mut y: usize = 0;
    while y < SCREEN_HEIGHT
        invariant
            y <= SCREEN_HEIGHT,
            forall|i: int, j: int|
                0 <= i < SCREEN_WIDTH && 0 <= j < y ==> #[trigger] winbuf.px(i, j) == pixel32_of(
                    fbuf.px(i, j),
                ),
        decreases SCREEN_HEIGHT - y,
    {
        let mut x: usize = 0;
        while x < SCREEN_WIDTH
            invariant
                x <= SCREEN_WIDTH,
                y < SCREEN_HEIGHT,
                forall|i: int, j: int|
                    0 <= i < SCREEN_WIDTH && 0 <= j < SCREEN_HEIGHT && (j < y || (j == y && i < x))
                        ==> #[trigger] winbuf.px(i, j) == pixel32_of(fbuf.px(i, j)),
            decreases SCREEN_WIDTH - x,
        {
            winbuf.set(x, y, pixel8_to_pixel32(fbuf.get(x, y)));
            x += 1;
        }
        y += 1;
    }
}

/// Erases one line of text: paints `num_chars` blocks of 8 by 8 pixels in `color`, side
/// by side, from `render_start` (column, row) rightwards. Every other pixel is kept.
pub fn erase_text(num_chars: usize, color: u8, screen: &mut FrameBuffer, render_start: (usize, usize))
    requires
        render_start.0 + num_chars * 8 <= SCREEN_WIDTH,
        render_start.1 + 8 <= SCREEN_HEIGHT,
    ensures
        forall|x: int, y: int|
            0 <= x < SCREEN_WIDTH && 0 <= y < SCREEN_HEIGHT ==> #[trigger] final(screen).px(x, y) == if render_start.0
                <= x < render_start.0 + num_chars * 8 && render_start.1 <= y < render_start.1 + 8 {
                color
            } else {
                old(screen).px(x, y)
            },
{
    let ghost s0 = *screen;
    let x_end = render_start.0 + num_chars * 8;
    let mut y: usize = render_start.1;
    while y < render_start.1 + 8
        invariant
            render_start.1 <= y <= render_start.1 + 8,
            x_end == render_start.0 + num_chars * 8,
            x_end <= SCREEN_WIDTH,
            render_start.1 + 8 <= SCREEN_HEIGHT,
            forall|i: int, j: int|
                0 <= i < SCREEN_WIDTH && 0 <= j < SCREEN_HEIGHT ==> #[trigger] screen.px(i, j) == if render_start.0
                    <= i < x_end && render_start.1 <= j < y {
                    color
                } else {
                    s0.px(i, j)
                },
        decreases render_start.1 + 8 - y,
    {
        let mut x: usize = render_start.0;
        while x < x_end
            invariant
                render_start.0 <= x <= x_end,
                render_start.1 <= y < render_start.1 + 8,
                x_end <= SCREEN_WIDTH,
                render_start.1 + 8 <= SCREEN_HEIGHT,
                forall|i: int, j: int|
                    0 <= i < SCREEN_WIDTH && 0 <= j < SCREEN_HEIGHT ==> #[trigger] screen.px(i, j) == if render_start.0
                        <= i < x_end && (render_start.1 <= j < y || (j == y && i < x)) {
                        color
                    } else {
                        s0.px(i, j)
                    },
            decreases x_end - x,
        {
            screen.set(x, y, color);
            x += 1;
        }
        y += 1;
    }
}

/// Relies on `core::hint::spin_loop`: a hint to the processor, with no effect on state.
#[verifier::external_body]
fn spin() {
    core::hint::spin_loop()
}

/// Spins for about `millis` milliseconds on the board's processor: six thousand spins
/// per millisecond.
pub fn wait_for_millis(millis: usize)
    requires
        millis * 6000 <= usize::MAX,
{
    let n = millis * 6000;
    let mut i: usize = 0;
    while i < n
        invariant
            i <= n,
        decreases n - i,
    {
        spin();
        i += 1;
    }
}

} // verus!
