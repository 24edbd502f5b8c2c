//! Cookies, session identifiers and the claims of tokens.
pub mod cookie;
pub mod jwt;
