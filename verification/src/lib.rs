//! The logic behind `rigbat`, a battery monitor for gaming peripherals: what a
//! device's state is, how it changes as polls and discovery sweeps come in, and
//! what every surface (tray icon, table, status bar, doctor report) says about it.

pub mod app;
pub mod appearance;
pub mod autostart;
pub mod cli;
pub mod config;
pub mod dashboard;
pub mod discovery;
pub mod doctor;
pub mod domain;
pub mod i18n;
pub mod icon;
pub mod invocation;
pub mod ipc;
pub mod laws;
pub mod notifications;
pub mod palette;
pub mod strings;
pub mod tray;
