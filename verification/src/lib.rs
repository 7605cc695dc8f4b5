pub mod board;
pub mod game;
pub mod lines;
pub mod logutil;
