# rustcast

The core of a launcher, with its behaviour stated in contracts and proved by Verus:

- `src/text.rs`, `src/keys.rs`, `src/shortcut.rs`: keyboard shortcuts, as they are
  read from a configuration, written back, shown and recorded.
- `src/launching.rs`: which keyboard events say which shortcut.
- `src/clipboard.rs`, `src/cell.rs`, `src/entry.rs`, `src/database.rs`,
  `src/setup.rs`: the clipboard history and the database table that holds it.
- `src/extensions.rs`, `src/message.rs`: extensions and what they ask for.
- `src/shortcut_laws.rs`, `src/database_laws.rs`: what holds of shortcuts and of the
  history as a whole.

`app/` is the program around the library: SQLite, the event tap, the scripting
engine and configuration files. `tests/` runs the library, and holds the history
against a table in SQLite that is changed by statements.

Three functions of the standard library are trusted: `str::to_lowercase`,
`str::to_ascii_uppercase` and `String::from_utf8`. `PathBuf` is carried unread.
