pub mod config;
pub mod icon;
pub mod macos_ddc;
pub mod menu;
pub mod monitor;
pub mod text;
