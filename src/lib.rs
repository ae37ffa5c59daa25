//! Decision core of an autosplitter: change-tracked game facts read from a
//! running game, and the rules that turn them into timer commands.
pub mod binary64;
pub mod game;
pub mod settings;
pub mod splitter;
pub mod variable;
