use vstd::prelude::*;
use rand::Rng;

verus! {

/// One candy colour of the fixed six-colour palette.
#[derive(Clone, Copy, Debug, PartialEq, Eq, Structural)]
pub enum Tile {
    Red,
    Orange,
    Yellow,
    Green,
    Blue,
    Purple,
}

/// Number of colours in the palette.
pub const PALETTE_SIZE: u32 = 6;

/// The palette position of a tile, in declaration order.
pub open spec fn tile_index(t: Tile) -> nat {
    match t {
        Tile::Red => 0,
        Tile::Orange => 1,
        Tile::Yellow => 2,
        Tile::Green => 3,
        Tile::Blue => 4,
        Tile::Purple => 5,
    }
}

/// The tile at palette position `i`; positions past the end give the last colour.
pub open spec fn tile_at(i: nat) -> Tile {
    if i == 0 {
        Tile::Red
    } else if i == 1 {
        Tile::Orange
    } else if i == 2 {
        Tile::Yellow
    } else if i == 3 {
        Tile::Green
    } else if i == 4 {
        Tile::Blue
    } else {
        Tile::Purple
    }
}

/// `t` differs from each exclusion that is present.
pub open spec fn allowed(t: Tile, exclude: Option<Tile>, exclude2: Option<Tile>) -> bool {
    exclude != Some(t) && exclude2 != Some(t)
}

/// How many draws `Tile::random` makes before it settles for the first allowed colour.
pub const MAX_DRAWS: u32 = 64;

/// A supply of random numbers, one per call; the tile randomizer reads it modulo the
/// palette size.
pub trait RandomSource {
    fn draw_raw(&mut self) -> u32;
}

/// Random numbers from the thread-local generator of `rand`.
pub struct ThreadRandom;

/// Relies on `rand::thread_rng` and `Rng::gen_range`: a number drawn uniformly from
/// `0..PALETTE_SIZE`.
#[verifier::external_body]
fn thread_draw() -> (r: u32)
    ensures
        r < PALETTE_SIZE,
{
    rand::thread_rng().gen_range(0..PALETTE_SIZE)
}

impl RandomSource for ThreadRandom {
    fn draw_raw(&mut self) -> u32 {
        thread_draw()
    }
}

impl Tile {
    /// Maps a raw random number onto the palette, modulo its size.
    pub fn from_raw(raw: u32) -> (t: Tile)
        ensures
            t == tile_at((raw % PALETTE_SIZE) as nat),
    {
        match raw % PALETTE_SIZE {
            0 => Tile::Red,
            1 => Tile::Orange,
            2 => Tile::Yellow,
            3 => Tile::Green,
            4 => Tile::Blue,
            _ => Tile::Purple,
        }
    }
}

impl Tile {
    /// The first colour, in palette order, that differs from both exclusions.
    pub fn random2(exclude: Option<Tile>, exclude2: Option<Tile>) -> (t: Tile)
        ensures
            allowed(t, exclude, exclude2),
            forall|i: nat| i < tile_index(t) ==> !allowed(#[trigger] tile_at(i), exclude, exclude2),
    {
        let mut i: u32 = 0;
        while i < PALETTE_SIZE
            invariant
                i <= PALETTE_SIZE,
                forall|k: nat| k < i ==> !allowed(#[trigger] tile_at(k), exclude, exclude2),
            decreases PALETTE_SIZE - i,
        {
            let t = Tile::from_raw(i);
            assert(tile_index(t) == i);
            if exclude != Some(t) && exclude2 != Some(t) {
                return t;
            }
            i += 1;
        }
        assert(!allowed(tile_at(0), exclude, exclude2));
        assert(!allowed(tile_at(1), exclude, exclude2));
        assert(!allowed(tile_at(2), exclude, exclude2));
        Tile::Blue
    }

    /// The first colour, in palette order, that equals none of the four given tiles.
    pub fn first_free(a: Option<Tile>, b: Option<Tile>, c: Option<Tile>, d: Option<Tile>) -> (t: Tile)
        ensures
            a != Some(t) && b != Some(t) && c != Some(t) && d != Some(t),
    {
        let mut i: u32 = 0;
        while i < PALETTE_SIZE
            invariant
                i <= PALETTE_SIZE,
                forall|k: nat| k < i ==> {
                    let u = #[trigger] tile_at(k);
                    a == Some(u) || b == Some(u) || c == Some(u) || d == Some(u)
                },
            decreases PALETTE_SIZE - i,
        {
            let t = Tile::from_raw(i);
            if a != Some(t) && b != Some(t) && c != Some(t) && d != Some(t) {
                return t;
            }
            i += 1;
        }
        let ghost u0 = tile_at(0);
        let ghost u1 = tile_at(1);
        let ghost u2 = tile_at(2);
        let ghost u3 = tile_at(3);
        let ghost u4 = tile_at(4);
        assert(false);
        Tile::Blue
    }

    /// The colour of one raw draw, if it differs from both exclusions.
    pub fn accept_draw(raw: u32, exclude: Option<Tile>, exclude2: Option<Tile>) -> (r: Option<Tile>)
        ensures
            r == if allowed(tile_at((raw % PALETTE_SIZE) as nat), exclude, exclude2) {
                Some(tile_at((raw % PALETTE_SIZE) as nat))
            } else {
                None
            },
    {
        let t = Tile::from_raw(raw);
        if exclude != Some(t) && exclude2 != Some(t) {
            Some(t)
        } else {
            None
        }
    }

    /// Draws colours uniformly from `rng` until one differs from both exclusions; with no
    /// exclusion the first draw is taken. After `MAX_DRAWS` refused draws the first allowed
    /// colour in palette order is taken, so a source that keeps repeating an excluded
    /// colour cannot stall the caller.
    pub fn random<R: RandomSource>(rng: &mut R, exclude: Option<Tile>, exclude2: Option<Tile>) -> (t: Tile)
        ensures
            allowed(t, exclude, exclude2),
    {
        let mut n: u32 = 0;
        while n < MAX_DRAWS
            invariant
                n <= MAX_DRAWS,
            decreases MAX_DRAWS - n,
        {
            if let Some(t) = Tile::accept_draw(rng.draw_raw(), exclude, exclude2) {
                return t;
            }
            n += 1;
        }
        Tile::random2(exclude, exclude2)
    }
}

} // verus!
