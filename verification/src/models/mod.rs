//! The records of durable storage and of the answers to requests.
pub mod authentication;
pub mod error;
pub mod hall_of_fame;
pub mod message;
pub mod room;
pub mod room_connection;
pub mod user;
