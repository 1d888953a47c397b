//! The interactive terminal interface, as a state machine: keys and events go
//! in, the new state and what the program has to do come out.

pub mod app;
pub mod async_bridge;
pub mod components;
pub mod focus;
pub mod key;
pub mod log_layer;
pub mod operate;
pub mod popups;
pub mod state;
pub mod tabs;
pub mod width;
