//! The compact visualizer: six modes, application filters and a settings panel.
pub mod config;
pub mod audio;
pub mod app;
pub mod ui;
