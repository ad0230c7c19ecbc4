//! Terminal user interface state machines.
pub mod confirm;
pub mod event;
pub mod main_view;
pub mod search;
pub mod state;
