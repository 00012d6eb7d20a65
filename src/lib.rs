//! A verified engine for a five-letter word guessing game: evaluation of a
//! guess against the answer, monotone letter hints, the difficult-mode rule,
//! the word bank with its seeded daily answer, and the session state machine.

pub mod config;
pub mod corpus;
pub mod evaluate;
pub mod game;
pub mod letter;
pub mod stats;
pub mod text;
pub mod words;
