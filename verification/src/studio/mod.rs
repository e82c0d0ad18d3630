//! The full-featured visualizer: seven modes, per-application capture, themes.
pub mod config;
pub mod theme;
pub mod audio;
pub mod ui;
pub mod app;
pub mod backend;
pub mod ring;
pub mod cli;
