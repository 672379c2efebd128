//! The client: it owns the terminal, and knows nothing of panes.

pub mod business_objects;
pub mod command_state_machine;
pub mod ui;
pub mod unix_client;
