//! Rule engine for a Yahtzee-style dice game: category scoring over a
//! five-dice roll, a write-once score sheet with the upper-section bonus,
//! and the three-roll turn protocol with validated dice retention.

pub mod dice;
pub mod score;
pub mod sheet;
pub mod turn;
pub mod utils;
