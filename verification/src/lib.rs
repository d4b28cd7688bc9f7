//! A verified tic-tac-toe engine: a 3×3 board, a two-player game on it,
//! and the line-driven text interface that drives a game.

pub mod board;
pub mod cli;
pub mod game;
pub mod text;
