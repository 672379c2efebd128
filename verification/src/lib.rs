//! The verified core of a terminal multiplexer.

pub mod args;
pub mod borders;
pub mod client;
pub mod command_state_machine;
pub mod common;
pub mod effect_laws;
pub mod error;
pub mod focus;
pub mod focus_laws;
pub mod frame_laws;
pub mod geometry;
pub mod glyph_laws;
pub mod input_laws;
pub mod input_state;
pub mod keys;
pub mod layout_laws;
pub mod limit_laws;
pub mod mux;
pub mod mux_laws;
pub mod pane_handle;
pub mod pane_tree;
pub mod pen_laws;
pub mod picture_laws;
pub mod screen_laws;
pub mod server;
pub mod session_laws;
pub mod shape_laws;
pub mod standalone;
pub mod terminal;
pub mod text;
pub mod tree_laws;
pub mod window_handle;
pub mod window_laws;
pub mod wire_laws;
