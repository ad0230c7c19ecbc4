//! The main daily-use view: apps panel, files panel and dialogs.
pub mod dialogs;
pub mod event;
pub mod keys;
pub mod state;
