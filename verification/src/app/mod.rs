//! What runs while rigbat runs.

pub mod history;
pub mod manager;
pub mod migration;
pub mod supervisor;
