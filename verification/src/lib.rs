//! Configuration model and wire protocols for gaming mice.
pub mod text;
pub mod types;
pub mod devices;
pub mod namemap;
pub mod config;
pub mod protocol;
pub mod razer;
pub mod corsair;
pub mod device;
pub mod evdev;
pub mod tui;
pub mod cli;
pub mod views;
