//! The presence and conversation router with its message store.
pub mod laws;
pub mod models;
pub mod room;
pub mod server;
