//! The command line: the subcommands of `roost` and their arguments. The parser itself is
//! built by the front end from these shapes.
use vstd::prelude::*;

verus! {

/// The parsed command line; no subcommand opens the terminal interface.
pub struct Cli {
    pub command: Option<Commands>,
}

/// The subcommands of `roost`.
pub enum Commands {
    Init,
    Add { path: String },
    Remove { app: Option<String>, all: bool },
    Sync,
    Profile(ProfileCmd),
    Diff,
    Log,
    Ignore { app: Option<String>, list: bool, pattern: Option<String> },
    Undo { n: Option<usize> },
    Rollback { hash: String },
    Restore { app: String },
    Remote { url: Option<String> },
    Doctor { fix: bool },
    Adopt,
    Where { app: String, profile: Option<String> },
    List { profile: Option<String> },
    Save { message: Option<String> },
    Status,
    /// Import an app from another profile via symlink (zero-copy).
    ///
    /// The app will appear in both profiles but files stay in the source profile.
    Import { app: String, from: String },
    /// Copy an app from the active profile to another profile (physical copy).
    ///
    /// Creates an independent copy of the app's files in the target profile.
    Copy { app: String, to: String },
    /// Generate shell completion scripts for supported shells.
    Completions { shell: String },
}

/// `roost profile <action>`.
pub struct ProfileCmd {
    pub action: ProfileAction,
}

/// The actions of `roost profile`.
pub enum ProfileAction {
    List,
    Switch { name: String },
    Add { name: String, from: Option<String> },
    Delete { name: String },
    Rename { old: String, new: String },
}

} // verus!
