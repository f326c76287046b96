//! The record store of a desktop sticky-note and to-do application: the rules
//! by which notes and to-dos are kept, rolled over, toggled, deleted and
//! merged with a remote copy, and the decisions that drive its main window.
//!
//! - `text`: code-point order and equality of texts;
//! - `record`: a record and a stored row, and their models;
//! - `todo`: completing, reopening, rolling over and repairing to-dos;
//! - `store`: the records table and every operation on it;
//! - `schema`: the sync columns and the stored sync-status text;
//! - `window`: restore order, shortcut, foreground watcher, placement, tray;
//! - `laws`: properties that hold across operations.
pub mod text;
pub mod record;
mod clock;
pub mod todo;
pub mod store;
pub mod schema;
pub mod window;
pub mod laws;
