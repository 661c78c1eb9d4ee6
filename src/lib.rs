//! A match-three puzzle engine: a board of coloured tiles, swaps that are kept only when
//! they line up three or more equal tiles, cascades that clear matches, drop the tiles
//! above and refill from a random source until the board is stable, a score, an
//! edge-triggered button reader, and a renderer into an 8-bit frame buffer.

pub mod tile;
pub mod grid;
pub mod matching;
pub mod swap;
pub mod cascade;
pub mod input;
pub mod session;
pub mod render;
pub mod text;
pub mod ball;
