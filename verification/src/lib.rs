pub mod config;
pub mod error;
pub mod nametable;
pub mod oam;
pub mod palette;
pub mod pattern;
pub mod snapshot;
pub mod tile;
pub mod views;
