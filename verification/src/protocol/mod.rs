//! The packet catalogue: one module for each kind of frame.

pub mod heart;
pub mod heart_beat;
pub mod player_info;
pub mod preregister_connection;
pub mod register_connection;
