pub mod error;
pub mod exact;
pub mod grid;
pub mod rule;
pub mod tally;
