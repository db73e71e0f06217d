//! The rules of a grid snake game, with machine-checked contracts.
//!
//! The crate holds the game state and its moves; windows, textures and
//! keyboards are left to the program that embeds it.

pub mod game;
pub mod model;
pub mod pos;
pub mod render;
pub mod rng;

pub use game::SnakeGame;
pub use model::GameView;
pub use pos::{direction_down, direction_left, direction_right, direction_up, pos, Pos};
pub use render::DrawCommand;
