//! A bitboard-backed chess position core: position state, legal-move
//! generation, the `make_move` transition, attack and check detection, and
//! perft counting, with machine-checked contracts throughout.

pub mod board;
pub mod chess;
pub mod color;
pub mod game;
pub mod movegen;
pub mod piece;
