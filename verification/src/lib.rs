//! Real-time core of a chat and rock-paper-scissors platform: the presence and
//! conversation router, the message store, the tournament engine and the
//! per-connection supervisor, each as a state machine with a proved contract.
pub mod chance;
pub mod chat;
pub mod config;
pub mod connection;
pub mod db;
pub mod envelope;
pub mod ez_handler;
pub mod ids;
pub mod models;
pub mod rps;
pub mod services;
pub mod session;
pub mod table;
