//! A small catching game: a paddle slides along the bottom of a square
//! canvas and catches fruit that fall from the top edge, one point per
//! catch. Positions are kept in thousandths of a unit and time in
//! milliseconds, so every rule of the game is exact integer arithmetic.

pub mod fruit;
pub mod game;
pub mod geometry;
pub mod player;
