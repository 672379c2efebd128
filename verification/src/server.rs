//! The server: it owns the session and its windows.

pub mod business_objects;
pub mod poll;
pub mod round;
pub mod session;
pub mod unix_server;
