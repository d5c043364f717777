//! Onitama: the rules of the game, its save notation, and search strategies
//! that play it.

pub mod ai;
pub mod cards;
pub mod game;
mod rng;
