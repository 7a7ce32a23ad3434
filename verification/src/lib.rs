//! Progress tracker for a single-player game: a reference model of
//! characters, locations and quests, and a log of game events that are
//! applied to it together with the events they presuppose.

pub mod model_3;
pub mod name_map;
pub mod text;
pub mod timed;
