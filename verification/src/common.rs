//! What client and server agree on.

pub mod dtos;
pub mod protocoll;
