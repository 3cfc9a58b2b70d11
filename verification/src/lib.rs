//! DGX-Pixels terminal UI: the verified core.
//!
//! This crate holds the state machines, caches, protocol values and report
//! logic of the pixel-art generation front end. Terminal drawing, sockets,
//! files and the event loop live in the companion binary.

pub mod render;
pub mod keyed;
pub mod text;
pub mod clock;
pub mod comparison;
pub mod reports;
pub mod messages;
pub mod screen;
pub mod keys;
pub mod input_buffer;
pub mod sixel;
pub mod classic;
pub mod state;
pub mod paths;
pub mod zmq;
pub mod input;
pub mod image_cache;
pub mod order;
pub mod preview_cache;
pub mod display;
pub mod gallery_scan;
pub mod comparison_input;
pub mod layout;
pub mod models_input;
pub mod models_table;
pub mod terminal_text;
