//! Frame-by-frame simulation of a two-paddle ball game on an integer grid.
//!
//! A session is a [`pong::Pong`] value: the arena, the balls, the paddles, the
//! score board and the text of the seven display slots. One frame runs the
//! stages in [`systems`] in a fixed order. Every stage is stated over the
//! mathematical view of the session and proved against it.

pub mod decimal;
pub mod grid;
pub mod pong;
pub mod systems;
