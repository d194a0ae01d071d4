//! The commands that a node gives to its protocol runners, and the runners' answers.
pub mod commands;
pub mod configuration;
pub mod controller;
pub mod errors;
pub mod exchange;
pub mod initialization;
pub mod laws;
pub mod messages;
pub mod runner;
pub mod watchdog;
