//! A UCI front end for a chess engine: a parser for the lines a controller
//! sends, and the session state machine that answers them.

pub mod rules;
pub mod session;
pub mod command;
pub mod decimal;
pub mod fen;
pub mod laws;
pub mod text;
