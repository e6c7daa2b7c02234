//! Grid, selection and unit-destination rules of a small tile board.

pub mod floor;
pub mod player;
pub mod unit;
pub mod world;
