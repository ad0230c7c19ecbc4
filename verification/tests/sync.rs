use roost::git::{ConflictPreference, SyncResult};
use roost::sync::{sync_next, SyncEvent, SyncState, SyncStep};

fn step_name(s: &SyncStep) -> &'static str {
    match s {
        SyncStep::ReadRemote => "read-remote",
        SyncStep::ReadDirty => "read-dirty",
        SyncStep::AutoSave => "auto-save",
        SyncStep::Fetch => "fetch",
        SyncStep::ReadRemoteMain => "read-remote-main",
        SyncStep::FirstPush => "first-push",
        SyncStep::ReadHeads => "read-heads",
        SyncStep::Merge => "merge",
        SyncStep::Rebase => "rebase",
        SyncStep::TakeTheirs => "take-theirs",
        SyncStep::AbortRebase => "abort-rebase",
        SyncStep::Push => "push",
        SyncStep::Done(_) => "done",
        SyncStep::Fail(_) => "fail",
    }
}

/// Feeds the events in turn and records the step names; returns the last step.
fn run(preference: ConflictPreference, events: Vec<SyncEvent>) -> (Vec<&'static str>, SyncStep) {
    let mut state = SyncState::new(preference);
    let mut names = Vec::new();
    let mut last = SyncStep::ReadRemote;
    for e in events {
        last = sync_next(&mut state, e);
        names.push(step_name(&last));
    }
    (names, last)
}

#[test]
fn sync_without_remote_fails() {
    let (names, last) = run(ConflictPreference::Local, vec![SyncEvent::Began, SyncEvent::RemoteRead(None)]);
    assert_eq!(names, vec!["read-remote", "fail"]);
    match last {
        SyncStep::Fail(m) => assert_eq!(m, "no remote configured"),
        _ => panic!("expected a failure"),
    }
}

#[test]
fn sync_first_push_is_clean() {
    let (names, last) = run(
        ConflictPreference::Local,
        vec![
            SyncEvent::Began,
            SyncEvent::RemoteRead(Some("git@host:dots".into())),
            SyncEvent::DirtyRead(true),
            SyncEvent::Saved,
            SyncEvent::Fetched,
            SyncEvent::RemoteMainRead(false),
            SyncEvent::FirstPushed,
        ],
    );
    assert_eq!(names, vec!["read-remote", "read-dirty", "auto-save", "fetch", "read-remote-main", "first-push", "done"]);
    assert!(matches!(last, SyncStep::Done(SyncResult::Clean)));
}

#[test]
fn sync_with_equal_heads_is_clean() {
    let (names, last) = run(
        ConflictPreference::Remote,
        vec![
            SyncEvent::Began,
            SyncEvent::RemoteRead(Some("url".into())),
            SyncEvent::DirtyRead(false),
            SyncEvent::Fetched,
            SyncEvent::RemoteMainRead(true),
            SyncEvent::HeadsRead { local: "abc".into(), remote: "abc".into() },
        ],
    );
    assert_eq!(names, vec!["read-remote", "read-dirty", "fetch", "read-remote-main", "read-heads", "done"]);
    assert!(matches!(last, SyncStep::Done(SyncResult::Clean)));
}

#[test]
fn sync_reports_settled_config_after_push() {
    let (names, last) = run(
        ConflictPreference::Local,
        vec![
            SyncEvent::Began,
            SyncEvent::RemoteRead(Some("url".into())),
            SyncEvent::DirtyRead(false),
            SyncEvent::Fetched,
            SyncEvent::RemoteMainRead(true),
            SyncEvent::HeadsRead { local: "abc".into(), remote: "def".into() },
            SyncEvent::Merged(vec!["apps.nvim: added from remote".into()]),
            SyncEvent::Rebased(Ok(())),
            SyncEvent::Pushed,
        ],
    );
    assert_eq!(names[5..].to_vec(), vec!["merge", "rebase", "push", "done"]);
    match last {
        SyncStep::Done(SyncResult::ConfigConflict { resolved }) => {
            assert_eq!(resolved, vec!["apps.nvim: added from remote".to_string()])
        }
        _ => panic!("expected a config conflict"),
    }
}

#[test]
fn sync_merge_without_notes_ends_clean() {
    let (_, last) = run(
        ConflictPreference::Local,
        vec![
            SyncEvent::HeadsRead { local: "a".into(), remote: "b".into() },
            SyncEvent::Merged(vec![]),
            SyncEvent::Rebased(Ok(())),
            SyncEvent::Pushed,
        ],
    );
    assert!(matches!(last, SyncStep::Done(SyncResult::Clean)));
}

#[test]
fn sync_local_preference_reports_conflicting_files() {
    let (names, last) = run(
        ConflictPreference::Local,
        vec![
            SyncEvent::Merged(vec!["n".into()]),
            SyncEvent::Rebased(Err("conflict".into())),
            SyncEvent::RebaseAborted(vec!["nvim/init.lua".into()]),
        ],
    );
    assert_eq!(names, vec!["rebase", "abort-rebase", "done"]);
    match last {
        SyncStep::Done(SyncResult::FileConflict { config_conflicts, file_conflicts, backups, preference }) => {
            assert_eq!(config_conflicts, vec!["n".to_string()]);
            assert_eq!(file_conflicts, vec!["nvim/init.lua".to_string()]);
            assert!(backups.is_empty());
            assert_eq!(preference, ConflictPreference::Local);
        }
        _ => panic!("expected a file conflict"),
    }
}

#[test]
fn sync_local_preference_without_conflict_files_fails() {
    let (_, last) = run(
        ConflictPreference::Local,
        vec![SyncEvent::Merged(vec![]), SyncEvent::Rebased(Err("boom".into())), SyncEvent::RebaseAborted(vec![])],
    );
    match last {
        SyncStep::Fail(m) => assert_eq!(m, "rebase failed and no conflict files detected: boom. Check git status."),
        _ => panic!("expected a failure"),
    }
}

#[test]
fn sync_remote_preference_takes_theirs_and_reports_backups() {
    let (names, last) = run(
        ConflictPreference::Remote,
        vec![
            SyncEvent::Merged(vec![]),
            SyncEvent::Rebased(Err("conflict".into())),
            SyncEvent::TookTheirs { backups: vec!["/b/init.lua".into()], continued: Ok(()) },
            SyncEvent::Pushed,
        ],
    );
    assert_eq!(names, vec!["rebase", "take-theirs", "push", "done"]);
    match last {
        SyncStep::Done(SyncResult::FileConflict { config_conflicts, file_conflicts, backups, preference }) => {
            assert!(config_conflicts.is_empty());
            assert!(file_conflicts.is_empty());
            assert_eq!(backups, vec!["/b/init.lua".to_string()]);
            assert_eq!(preference, ConflictPreference::Remote);
        }
        _ => panic!("expected a file conflict"),
    }
}

#[test]
fn sync_remote_preference_fails_when_continue_fails() {
    let (_, last) = run(
        ConflictPreference::Remote,
        vec![
            SyncEvent::Rebased(Err("conflict".into())),
            SyncEvent::TookTheirs { backups: vec![], continued: Err("still conflicted".into()) },
        ],
    );
    match last {
        SyncStep::Fail(m) => assert_eq!(
            m,
            "rebase failed after resolving conflicts: still conflicted. Manual resolution may be required."
        ),
        _ => panic!("expected a failure"),
    }
}
