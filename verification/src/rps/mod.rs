//! The rock-paper-scissors tournament engine.
pub mod game;
pub mod laws;
pub mod manager;
pub mod models;
pub mod rules;
