//! The vocabulary every surface shares.

pub mod display;
pub mod double;
pub mod estimate;
pub mod primary;
pub mod roster;
pub mod text;
pub mod time;
pub mod types;
