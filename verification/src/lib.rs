//! A verified tic-tac-toe engine: board representation, win and tie
//! detection, digit-to-cell coordinate mapping, the random and minimax
//! move-selection strategies, and the turn-alternation state machine.
//!
//! Terminal I/O (prompts, rendering, the outer restart loop) lives outside
//! the library and only hands plain values in and out.

pub mod board;
pub mod game;
pub mod mapper;
pub mod strategy;
