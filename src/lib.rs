//! A small text adventure: a fixed graph of rooms with exits gated by progress
//! flags, non-player characters with a four-stage dialogue, and a plain-text
//! save record that restores all of it.

pub mod commands;
pub mod game;
pub mod npcs;
pub mod room;
pub mod save;
pub mod state;
pub mod text;
