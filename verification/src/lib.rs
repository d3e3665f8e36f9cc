//! Keyboard shortcuts, clipboard history and extensions of a launcher.

pub mod cell;
pub mod clipboard;
pub mod database;
pub mod database_laws;
pub mod entry;
pub mod entry_laws;
pub mod extensions;
pub mod history_laws;
pub mod key_laws;
pub mod keys;
pub mod launching;
pub mod message;
pub mod setup;
pub mod shortcut;
pub mod shortcut_laws;
pub mod text;
