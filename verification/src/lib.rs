pub mod board;
pub mod render;

pub use board::Game;
pub use board::GameView;
