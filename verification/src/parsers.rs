//! Readers of the catalogue's documents.

pub mod boardgame;
pub mod engine;
