//! Verso's logic, verified: synced lyrics from LRC text, the engine that follows the
//! player and says which line to show, the lyrics and translation services' rules, and the
//! overlay's settings and placement.
pub mod text;
pub mod lrc;
pub mod player;
pub mod offsets;
pub mod sync;
pub mod runtime;
pub mod state;
pub mod config;
pub mod geometry;
pub mod links;
pub mod translate;
pub mod cache;
pub mod service;
pub mod lyrics;
pub mod tray;
pub mod secrets;
