//! Core of a chess game: the move-legality rules for each kind of piece and
//! the selection/turn state machine that turns "square clicked" events into
//! committed moves, captures, and a game-over signal when a king is taken.
//!
//! The board is an 8x8 grid addressed by (x, y) with both coordinates in
//! 0..8. White pawns start on x = 1 and advance toward x = 7; black pawns
//! start on x = 6 and advance toward x = 0.

pub mod board;
pub mod pieces;
