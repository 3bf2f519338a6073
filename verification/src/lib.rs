//! The logic of a launcher window.

pub mod apps;
pub mod batches;
pub mod clipboard;
pub mod events;
pub mod file_search;
pub mod hot_reload;
pub mod icons;
pub mod message;
mod parallel;
pub mod pattern;
pub mod ranking;
pub mod release;
pub mod text;
pub mod tile;
