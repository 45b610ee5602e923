//! Decision logic, command builders and configuration handling for a Herdr
//! plugin that keeps a persistent floating scratch popup backed by tmux.

pub mod text;
pub mod scope;
pub mod herdr;
pub mod decisions;
pub mod state;
pub mod workspace_marker;
pub mod commands;
pub mod actions;
pub mod pane;
pub mod config;
pub mod geometry;
pub mod mouse;
pub mod keys_document;
pub mod keybindings;
pub mod manifest;
