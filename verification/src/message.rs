//! What the launcher is told.

use crate::shortcut::Shortcut;
use vstd::prelude::*;

verus! {

/// A message to the launcher.
#[derive(Debug, Clone, PartialEq, Eq)]
pub enum Message {
    /// A shortcut that is listened for was pressed.
    KeyPressed(Shortcut),
    /// An extension has an entry to show.
    AddExtensionApp {
        /// The name to show.
        display: String,
        /// The name to search by.
        search: String,
        /// The path of the icon.
        icon_path: String,
    },
}

} // verus!
