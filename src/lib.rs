//! Parsing and state for a desktop volume panel: the stream listing and the
//! main-volume reply of the audio tools, the per-stream volume table, the
//! panel's state across refreshes, and the command lines that apply changes.
pub mod assoc;
pub mod commands;
pub mod listing;
pub mod laws;
pub mod number;
pub mod props;
pub mod state;
pub mod text;
pub mod volume;
