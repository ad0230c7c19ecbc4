//! Side effects that a key press in the main view asks for.
use vstd::prelude::*;

verus! {

/// Side effects produced by a single keypress. The event loop collects them and carries
/// them out after the key handler returns, so that state changes and I/O stay apart.
#[derive(Debug, Clone, PartialEq, Eq)]
pub enum Action {
    Quit,
    SetStatus(String),
    AutoCommit(String),
    RemoveApp(String),
    OpenEditor(String),
    OpenPager(String),
    Sync,
    SwitchProfile(String),
    CreateProfile { name: String, copy_current: bool },
    DeleteProfile(String),
    SetPrimary { app: String, path: String },
    ImportApp { app: String, source_profile: String },
    CopyApp { app: String, target_profile: String },
    AddIgnore(String),
    RemoveIgnore(String),
    Undo,
    Rollback(String),
    Refresh,
    Nop,
}

} // verus!
