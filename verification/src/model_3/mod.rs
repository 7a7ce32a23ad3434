//! The tracker proper: the reference model, the event log with its
//! derivation of presupposed events, and the suggestion of commands.

pub mod chain;
pub mod command;
pub mod game_record;
pub mod laws;
pub mod model;
pub mod parse;
pub mod runtime;
