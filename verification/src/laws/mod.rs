//! What the operations are for, said of their inputs and results.
//!
//! Each law speaks of the plain data: readings, settings, device states and the
//! texts and pictures made of them. It holds of whatever the functions are
//! specified to return, and fails where that no longer serves its purpose.

pub mod alerts;
pub mod calls;
pub mod charge;
pub mod commands;
pub mod devices;
pub mod drawing;
pub mod icons;
pub mod language;
pub mod lines;
pub mod registry;
pub mod rounding;
pub mod settings;
pub mod surfaces;
pub mod sweeps;
pub mod words;
