//! The course of a sync with the remote: after each piece of git work that the caller
//! carries out, what to do next, and how the sync ends.
use vstd::prelude::*;

use crate::git::{sync_outcome, ConflictPreference, SyncResult};
use crate::text::concat;

verus! {

/// The git work a sync asks for next, or how it ends.
pub enum SyncStep {
    /// Read the URL of the `origin` remote.
    ReadRemote,
    /// Read whether the working tree has changes.
    ReadDirty,
    /// Commit the pending changes ("sync: auto-save pending edits").
    AutoSave,
    /// Fetch from `origin`.
    Fetch,
    /// Read whether `origin/main` exists.
    ReadRemoteMain,
    /// Push `main` to `origin` for the first time (`push -u origin main`): the remote has
    /// no `main` yet.
    FirstPush,
    /// Read the local head and `origin/main`.
    ReadHeads,
    /// Merge the remote `roost.toml` into the local one, save it, regenerate `.gitignore`
    /// and commit ("merge: resolve sync conflicts").
    Merge,
    /// Rebase onto `origin/main`.
    Rebase,
    /// Back up each conflicting file, take the remote side of it, and continue the rebase.
    TakeTheirs,
    /// List the conflicting files and abort the rebase.
    AbortRebase,
    /// Push `main` to `origin`.
    Push,
    /// The sync is over.
    Done(SyncResult),
    /// The sync failed.
    Fail(String),
}

/// What the caller found when it did the last piece of work.
pub enum SyncEvent {
    /// The sync begins.
    Began,
    RemoteRead(Option<String>),
    DirtyRead(bool),
    Saved,
    Fetched,
    RemoteMainRead(bool),
    /// `main` was pushed to a remote that had none.
    FirstPushed,
    /// `main` was pushed after the rebase.
    Pushed,
    HeadsRead { local: String, remote: String },
    /// The config was merged; these are the notes on what the merge settled.
    Merged(Vec<String>),
    Rebased(Result<(), String>),
    /// The remote side was taken; the backups made, and how continuing the rebase went.
    TookTheirs { backups: Vec<String>, continued: Result<(), String> },
    /// The rebase was aborted; the files that were in conflict.
    RebaseAborted(Vec<String>),
}

/// What a sync has gathered so far.
pub struct SyncState {
    pub preference: ConflictPreference,
    pub config_conflicts: Vec<String>,
    pub backups: Vec<String>,
    pub rebase_error: Option<String>,
}

impl SyncState {
    /// A sync that keeps the local side (`Local`) or the remote side (`Remote`) of conflicts.
    pub fn new(preference: ConflictPreference) -> (r: Self)
        ensures
            r.preference == preference,
            r.config_conflicts@.len() == 0,
            r.backups@.len() == 0,
            r.rebase_error is None,
    {
        SyncState {
            preference,
            config_conflicts: Vec::new(),
            backups: Vec::new(),
            rebase_error: None,
        }
    }
}

/// `s` is the step that ends a sync with the outcome [`sync_outcome`] gives for what the
/// sync gathered.
pub open spec fn ends_with_outcome(s: SyncStep, st: SyncState) -> bool {
    &&& s matches SyncStep::Done(out)
    &&& (st.config_conflicts@.len() == 0 && st.backups@.len() == 0 ==> out is Clean)
    &&& (st.config_conflicts@.len() > 0 && st.backups@.len() == 0 ==> (out matches SyncResult::ConfigConflict {
        resolved: r,
    } && r@ == st.config_conflicts@))
    &&& (st.backups@.len() > 0 ==> (out matches SyncResult::FileConflict {
        config_conflicts: c,
        file_conflicts: f,
        backups: b,
        preference: p,
    } && c@ == st.config_conflicts@ && f@.len() == 0 && b@ == st.backups@ && p == st.preference))
}

/// The step after `event`, for a sync in state `a`, and the state `b` after it.
pub open spec fn sync_next_ok(a: SyncState, event: SyncEvent, b: SyncState, s: SyncStep) -> bool {
    &&& b.preference == a.preference
    &&& match event {
        SyncEvent::Began => s is ReadRemote && same_gathered(a, b),
        SyncEvent::RemoteRead(None) => (s matches SyncStep::Fail(m) && m@ == "no remote configured"@) && same_gathered(a, b),
        SyncEvent::RemoteRead(Some(_)) => s is ReadDirty && same_gathered(a, b),
        SyncEvent::DirtyRead(true) => s is AutoSave && same_gathered(a, b),
        SyncEvent::DirtyRead(false) => s is Fetch && same_gathered(a, b),
        SyncEvent::Saved => s is Fetch && same_gathered(a, b),
        SyncEvent::Fetched => s is ReadRemoteMain && same_gathered(a, b),
        SyncEvent::RemoteMainRead(false) => s is FirstPush && same_gathered(a, b),
        SyncEvent::RemoteMainRead(true) => s is ReadHeads && same_gathered(a, b),
        SyncEvent::FirstPushed => s matches SyncStep::Done(SyncResult::Clean) && same_gathered(a, b),
        SyncEvent::Pushed => ends_with_outcome(s, a) && same_gathered(a, b),
        SyncEvent::HeadsRead { local, remote } => same_gathered(a, b) && if local@ == remote@ {
            s matches SyncStep::Done(SyncResult::Clean)
        } else {
            s is Merge
        },
        SyncEvent::Merged(notes) => s is Rebase && b.config_conflicts == notes && b.backups == a.backups
            && b.rebase_error == a.rebase_error,
        SyncEvent::Rebased(Ok(())) => s is Push && same_gathered(a, b),
        SyncEvent::Rebased(Err(e)) => b.config_conflicts == a.config_conflicts && b.backups == a.backups
            && b.rebase_error == Some(e) && match a.preference {
            ConflictPreference::Remote => s is TakeTheirs,
            ConflictPreference::Local => s is AbortRebase,
        },
        SyncEvent::TookTheirs { backups, continued } => b.config_conflicts == a.config_conflicts && b.backups
            == backups && b.rebase_error == a.rebase_error && match continued {
            Ok(()) => s is Push,
            Err(e) => s matches SyncStep::Fail(m) && m@ == "rebase failed after resolving conflicts: "@ + e@
                + ". Manual resolution may be required."@,
        },
        SyncEvent::RebaseAborted(files) => same_gathered(a, b) && if files@.len() == 0 {
            s matches SyncStep::Fail(m) && m@ == "rebase failed and no conflict files detected: "@ + match a.rebase_error {
                Some(e) => e@,
                None => Seq::empty(),
            } + ". Check git status."@
        } else {
            s matches SyncStep::Done(SyncResult::FileConflict { config_conflicts: c, file_conflicts: f, backups: k, preference: p })
                && c@ == a.config_conflicts@ && f == files && k@ == a.backups@ && p == a.preference
        },
    }
}

/// Nothing that the sync gathered changed.
pub open spec fn same_gathered(a: SyncState, b: SyncState) -> bool {
    b.config_conflicts == a.config_conflicts && b.backups == a.backups && b.rebase_error == a.rebase_error
}

fn copy_strings(v: &Vec<String>) -> (r: Vec<String>)
    ensures
        r@.len() == v@.len(),
        forall|i: int| 0 <= i < r@.len() ==> #[trigger] r@[i] == v@[i],
{
    let mut out: Vec<String> = Vec::new();
    let mut i: usize = 0;
    while i < v.len()
        invariant
            i <= v@.len(),
            out@.len() == i,
            forall|k: int| 0 <= k < i ==> #[trigger] out@[k] == v@[k],
        decreases v@.len() - i,
    {
        out.push(v[i].clone());
        i = i + 1;
    }
    out
}

/// The next step of a sync after `event` (see [`sync_next_ok`]): the caller does what the
/// step asks and hands back what it found, until the sync is done or fails.
pub fn sync_next(state: &mut SyncState, event: SyncEvent) -> (s: SyncStep)
    ensures
        sync_next_ok(*old(state), event, *final(state), s),
{
    let step = match event {
        SyncEvent::Began => SyncStep::ReadRemote,
        SyncEvent::RemoteRead(None) => SyncStep::Fail("no remote configured".to_string()),
        SyncEvent::RemoteRead(Some(_)) => SyncStep::ReadDirty,
        SyncEvent::DirtyRead(dirty) => {
            if dirty {
                SyncStep::AutoSave
            } else {
                SyncStep::Fetch
            }
        },
        SyncEvent::Saved => SyncStep::Fetch,
        SyncEvent::Fetched => SyncStep::ReadRemoteMain,
        SyncEvent::RemoteMainRead(exists) => {
            if exists {
                SyncStep::ReadHeads
            } else {
                SyncStep::FirstPush
            }
        },
        SyncEvent::FirstPushed => SyncStep::Done(SyncResult::Clean),
        SyncEvent::Pushed => {
            let conflicts = copy_strings(&state.config_conflicts);
            let backups = copy_strings(&state.backups);
            proof {
                assert(conflicts@ =~= state.config_conflicts@);
                assert(backups@ =~= state.backups@);
            }
            SyncStep::Done(sync_outcome(conflicts, backups, state.preference))
        },
        SyncEvent::HeadsRead { local, remote } => {
            if crate::text::str_eq(local.as_str(), remote.as_str()) {
                SyncStep::Done(SyncResult::Clean)
            } else {
                SyncStep::Merge
            }
        },
        SyncEvent::Merged(notes) => {
            state.config_conflicts = notes;
            SyncStep::Rebase
        },
        SyncEvent::Rebased(result) => {
            match result {
                Ok(()) => SyncStep::Push,
                Err(e) => {
                    state.rebase_error = Some(e);
                    match state.preference {
                        ConflictPreference::Remote => SyncStep::TakeTheirs,
                        ConflictPreference::Local => SyncStep::AbortRebase,
                    }
                },
            }
        },
        SyncEvent::TookTheirs { backups, continued } => {
            state.backups = backups;
            match continued {
                Ok(()) => SyncStep::Push,
                Err(e) => {
                    let m = concat("rebase failed after resolving conflicts: ", e.as_str());
                    SyncStep::Fail(concat(m.as_str(), ". Manual resolution may be required."))
                },
            }
        },
        SyncEvent::RebaseAborted(files) => {
            if files.len() == 0 {
                proof {
                    reveal_strlit("");
                }
                let e = match &state.rebase_error {
                    Some(e) => e.as_str(),
                    None => "",
                };
                let m = concat("rebase failed and no conflict files detected: ", e);
                SyncStep::Fail(concat(m.as_str(), ". Check git status."))
            } else {
                let conflicts = copy_strings(&state.config_conflicts);
                let backups = copy_strings(&state.backups);
                proof {
                    assert(conflicts@ =~= state.config_conflicts@);
                    assert(backups@ =~= state.backups@);
                }
                SyncStep::Done(
                    SyncResult::FileConflict {
                        config_conflicts: conflicts,
                        file_conflicts: files,
                        backups,
                        preference: state.preference,
                    },
                )
            }
        },
    };
    step
}

} // verus!
