//! A terminal snake game engine: a grid of cells, a snake steered one tick at
//! a time, food placed at random among the empty cells, and a running score.
//! The game rules live in [`game`]; the score counter lives in
//! [`score_tracker`].

pub mod game;
pub mod score_tracker;
