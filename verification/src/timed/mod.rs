//! The play time of a game by session.

pub mod game;
