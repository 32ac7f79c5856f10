//! Input sound engine: compiles a sound configuration into rules and routes
//! normalized input events to sounds.
pub mod audio;
pub mod config;
pub mod domain;
mod draw;
pub mod executor;
pub mod pipeline;
pub mod backend;
pub mod app;
pub mod launcher;
