use vstd::prelude::*;
use crate::render::{FrameBuffer, SCREEN_WIDTH, SCREEN_HEIGHT, Y_MARGIN, BACKGROUND_COLOR, erase_text};

verus! {

/// An 8 by 8 bitmap font for the ASCII codes: row `by` of glyph `c` holds pixel `bx`
/// in bit `bx`.
#[derive(Clone, Copy, Debug, PartialEq, Eq)]
pub struct Font {
    pub glyphs: [[u8; 8]; 128],
}

/// Every character of `s` is ASCII.
pub open spec fn all_ascii(s: Seq<char>) -> bool {
    forall|i: int| 0 <= i < s.len() ==> (#[trigger] s[i] as u32) < 128
}

/// Pixel `(bx, by)` of the glyph for code `c` is set.
pub open spec fn glyph_bit(font: Font, c: int, bx: int, by: int) -> bool {
    (font.glyphs@[c]@[by] >> (bx as u8)) & 1u8 == 1u8
}

/// Screen pixel `(x, y)` is a set glyph pixel of the first `n` characters of `s`, laid
/// out in cells of 8 by 8 pixels from `start` rightwards.
pub open spec fn text_pixel(s: Seq<char>, font: Font, start: (usize, usize), n: int, x: int, y: int) -> bool {
    let rx = x - start.0;
    let ry = y - start.1;
    &&& 0 <= rx < n * 8
    &&& 0 <= ry < 8
    &&& glyph_bit(font, (s[rx / 8] as u32) as int, rx % 8, ry)
}

/// The text fits on the screen from `start`.
pub open spec fn text_fits(s: Seq<char>, start: (usize, usize)) -> bool {
    start.0 + s.len() * 8 <= SCREEN_WIDTH && start.1 + 8 <= SCREEN_HEIGHT
}

/// Relies on `ascii::AsciiStr::from_ascii`, which accepts exactly the strings whose
/// bytes are all ASCII, and on `AsciiStr::as_bytes`, which gives those bytes: for a
/// string of ASCII characters, their codes.
#[verifier::external_body]
fn ascii_codes(s: &str) -> (r: Option<Vec<u8>>)
    ensures
        r is Some <==> all_ascii(s@),
        r matches Some(b) ==> b@.len() == s@.len() && forall|i: int|
            0 <= i < s@.len() ==> #[trigger] b@[i] as u32 == s@[i] as u32,
{
    match ascii::AsciiStr::from_ascii(s) {
        Ok(a) => Some(a.as_bytes().to_vec()),
        Err(_) => None,
    }
}

/// Draws the glyph of code `c` in `color` with its top-left corner at `(px, py)`; the
/// glyph's clear pixels and every pixel outside its cell are kept.
fn draw_glyph(screen: &mut FrameBuffer, font: &Font, c: u8, color: u8, px: usize, py: usize)
    requires
        c < 128,
        px + 8 <= SCREEN_WIDTH,
        py + 8 <= SCREEN_HEIGHT,
    ensures
        forall|x: int, y: int|
            0 <= x < SCREEN_WIDTH && 0 <= y < SCREEN_HEIGHT ==> #[trigger] final(screen).px(x, y) == if px <= x
                < px + 8 && py <= y < py + 8 && glyph_bit(*font, c as int, x - px, y - py) {
                color
            } else {
                old(screen).px(x, y)
            },
{
    let ghost s0 = *screen;
    let glyph = font.glyphs[c as usize];
    let mut by: usize = 0;
    while by < 8
        invariant
            by <= 8,
            c < 128,
            glyph == font.glyphs@[c as int],
            px + 8 <= SCREEN_WIDTH,
            py + 8 <= SCREEN_HEIGHT,
            forall|x: int, y: int|
                0 <= x < SCREEN_WIDTH && 0 <= y < SCREEN_HEIGHT ==> #[trigger] screen.px(x, y) == if px <= x
                    < px + 8 && py <= y < py + by && glyph_bit(*font, c as int, x - px, y - py) {
                    color
                } else {
                    s0.px(x, y)
                },
        decreases 8 - by,
    {
        let row = glyph[by];
        let mut bx: usize = 0;
        while bx < 8
            invariant
                bx <= 8,
                by < 8,
                c < 128,
                glyph == font.glyphs@[c as int],
                row == font.glyphs@[c as int]@[by as int],
                px + 8 <= SCREEN_WIDTH,
                py + 8 <= SCREEN_HEIGHT,
                forall|x: int, y: int|
                    0 <= x < SCREEN_WIDTH && 0 <= y < SCREEN_HEIGHT ==> #[trigger] screen.px(x, y) == if px <= x
                        < px + 8 && (py <= y < py + by || (y == py + by && x < px + bx)) && glyph_bit(
                        *font,
                        c as int,
                        x - px,
                        y - py,
                    ) {
                        color
                    } else {
                        s0.px(x, y)
                    },
            decreases 8 - bx,
        {
            if (row >> (bx as u8)) & 1u8 == 1u8 {
                screen.set(px + bx, py + by, color);
            }
            bx += 1;
        }
        by += 1;
    }
}

/// Draws `s` in one line of 8 by 8 glyphs from `render_start` (column, row) rightwards,
/// painting each set glyph pixel in `color` and keeping every other pixel. Draws nothing
/// and returns `false` where `s` holds a character that is not ASCII or does not fit on
/// the screen.
pub fn render_text(
    s: &str,
    color: u8,
    screen: &mut FrameBuffer,
    render_start: (usize, usize),
    font: &Font,
) -> (drawn: bool)
    ensures
        drawn == (all_ascii(s@) && text_fits(s@, render_start)),
        forall|x: int, y: int|
            0 <= x < SCREEN_WIDTH && 0 <= y < SCREEN_HEIGHT ==> #[trigger] final(screen).px(x, y) == if drawn
                && text_pixel(s@, *font, render_start, s@.len() as int, x, y) {
                color
            } else {
                old(screen).px(x, y)
            },
{
    let codes = match ascii_codes(s) {
        Some(b) => b,
        None => {
            return false;
        },
    };
    let n = codes.len();
    if render_start.1 > SCREEN_HEIGHT - 8 || render_start.0 > SCREEN_WIDTH || n > (SCREEN_WIDTH
        - render_start.0) / 8 {
        return false;
    }
    let ghost s0 = *screen;
    let mut ci: usize = 0;
    while ci < n
        invariant
            ci <= n,
            n == s@.len(),
            codes@.len() == n,
            all_ascii(s@),
            forall|i: int| 0 <= i < n ==> #[trigger] codes@[i] as u32 == s@[i] as u32,
            render_start.0 + n * 8 <= SCREEN_WIDTH,
            render_start.1 + 8 <= SCREEN_HEIGHT,
            forall|x: int, y: int|
                0 <= x < SCREEN_WIDTH && 0 <= y < SCREEN_HEIGHT ==> #[trigger] screen.px(x, y) == if text_pixel(
                    s@,
                    *font,
                    render_start,
                    ci as int,
                    x,
                    y,
                ) {
                    color
                } else {
                    s0.px(x, y)
                },
        decreases n - ci,
    {
        let c = codes[ci];
        assert(c as u32 == s@[ci as int] as u32);
        assert((s@[ci as int] as u32) < 128);
        let ghost before = *screen;
        draw_glyph(screen, font, c, color, render_start.0 + ci * 8, render_start.1);
        proof {
            assert forall|x: int, y: int|
                0 <= x < SCREEN_WIDTH && 0 <= y < SCREEN_HEIGHT implies #[trigger] screen.px(x, y)
                    == if text_pixel(s@, *font, render_start, ci + 1, x, y) {
                    color
                } else {
                    s0.px(x, y)
                } by {
                let rx = x - render_start.0;
                if render_start.0 + ci * 8 <= x < render_start.0 + ci * 8 + 8 {
                    assert(rx / 8 == ci && rx % 8 == x - (render_start.0 + ci * 8)) by (nonlinear_arith)
                        requires
                            rx == x - render_start.0,
                            ci * 8 <= rx < ci * 8 + 8,
                    ;
                } else if 0 <= rx < ci * 8 {
                    assert(rx / 8 < ci) by (nonlinear_arith)
                        requires
                            0 <= rx < ci * 8,
                    ;
                    assert(before.px(x, y) == screen.px(x, y));
                }
            }
        }
        ci += 1;
    }
    true
}

/// The character of decimal digit `d`.
pub open spec fn digit_char(d: nat) -> char {
    if d == 0 {
        '0'
    } else if d == 1 {
        '1'
    } else if d == 2 {
        '2'
    } else if d == 3 {
        '3'
    } else if d == 4 {
        '4'
    } else if d == 5 {
        '5'
    } else if d == 6 {
        '6'
    } else if d == 7 {
        '7'
    } else if d == 8 {
        '8'
    } else {
        '9'
    }
}

/// The decimal digits of `n`, most significant first, without leading zeros.
pub open spec fn decimal_digits(n: nat) -> Seq<char>
    decreases n,
{
    if n < 10 {
        seq![digit_char(n)]
    } else {
        decimal_digits(n / 10).push(digit_char(n % 10))
    }
}

/// Decimal digits are ASCII.
pub proof fn lemma_decimal_ascii(n: nat)
    ensures
        all_ascii(decimal_digits(n)),
    decreases n,
{
    if n >= 10 {
        lemma_decimal_ascii(n / 10);
        let d = decimal_digits(n / 10);
        assert forall|i: int| 0 <= i < decimal_digits(n).len() implies (#[trigger] decimal_digits(n)[i] as u32) < 128 by {
            if i < d.len() {
                assert(decimal_digits(n)[i] == d[i]);
            }
        }
    }
}

/// Relies on `itoa::Buffer::format`: the decimal digits of `n`, without sign or leading
/// zeros.
#[verifier::external_body]
fn decimal(n: u64) -> (r: String)
    ensures
        r@ == decimal_digits(n as nat),
{
    itoa::Buffer::new().format(n).to_string()
}

/// Draws `value` in decimal digits from `render_start`, as `render_text` draws text;
/// `false`, with nothing drawn, where the digits do not fit on the screen.
pub fn render_number(
    value: u64,
    color: u8,
    screen: &mut FrameBuffer,
    render_start: (usize, usize),
    font: &Font,
) -> (drawn: bool)
    ensures
        drawn == text_fits(decimal_digits(value as nat), render_start),
        forall|x: int, y: int|
            0 <= x < SCREEN_WIDTH && 0 <= y < SCREEN_HEIGHT ==> #[trigger] final(screen).px(x, y) == if drawn
                && text_pixel(
                decimal_digits(value as nat),
                *font,
                render_start,
                decimal_digits(value as nat).len() as int,
                x,
                y,
            ) {
                color
            } else {
                old(screen).px(x, y)
            },
{
    let digits = decimal(value);
    proof {
        lemma_decimal_ascii(value as nat);
    }
    render_text(digits.as_str(), color, screen, render_start, font)
}

/// Column where the side panel's text starts.
pub const PANEL_X: usize = 210;
/// Row of the first title line.
pub const TITLE0_Y: usize = Y_MARGIN + 32;
/// Row of the second title line.
pub const TITLE1_Y: usize = TITLE0_Y + 8;
/// Row of the score label.
pub const SCORE_LABEL_Y: usize = TITLE1_Y + 3 * 8;
/// Row of the score value.
pub const SCORE_VALUE_Y: usize = SCORE_LABEL_Y + 8;
/// Row of the points of the latest cascade step.
pub const MOVE_SCORE_Y: usize = SCORE_VALUE_Y + 8;
/// Characters the score field holds.
pub const SCORE_FIELD_CHARS: usize = 8;
/// Colour of text.
pub const TEXT_COLOR: u8 = 0x00;

/// Pixel `(x, y)` lies in the score field.
pub open spec fn in_score_field(x: int, y: int) -> bool {
    PANEL_X <= x < PANEL_X + SCORE_FIELD_CHARS * 8 && SCORE_VALUE_Y <= y < SCORE_VALUE_Y + 8
}

/// Clears the score field to the background and draws `score` in it, in the text colour.
/// Digits that run past the field are drawn too, as long as they fit on the screen;
/// where they do not, only the clearing is done and `false` is returned.
pub fn render_scoreboard(screen: &mut FrameBuffer, score: u64, font: &Font) -> (drawn: bool)
    ensures
        drawn == text_fits(decimal_digits(score as nat), (PANEL_X, SCORE_VALUE_Y)),
        forall|x: int, y: int|
            0 <= x < SCREEN_WIDTH && 0 <= y < SCREEN_HEIGHT ==> #[trigger] final(screen).px(x, y) == if drawn
                && text_pixel(
                decimal_digits(score as nat),
                *font,
                (PANEL_X, SCORE_VALUE_Y),
                decimal_digits(score as nat).len() as int,
                x,
                y,
            ) {
                TEXT_COLOR
            } else if in_score_field(x, y) {
                BACKGROUND_COLOR
            } else {
                old(screen).px(x, y)
            },
{
    erase_text(SCORE_FIELD_CHARS, BACKGROUND_COLOR, screen, (PANEL_X, SCORE_VALUE_Y));
    render_number(score, TEXT_COLOR, screen, (PANEL_X, SCORE_VALUE_Y), font)
}

} // verus!
