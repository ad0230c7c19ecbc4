use roost::app::{Application, LocalAppConfig, Profile, SharedAppConfig};
use roost::collections::{StrMap, StrSet};
use roost::git::{
    classify_apps, commit_outcome, conflict_files, git_failure_detail, merge_shared, note_messages,
    parse_git_stat, parse_log, remote_outcome, restore_protected, rollback_message, rollback_path,
    short_hash, sync_outcome, sync_status, ConflictPreference, MergeNote, SyncResult,
};
use roost::os_detect::OsInfo;

fn set(items: &[&str]) -> StrSet {
    let mut s = StrSet::new();
    for i in items {
        s.insert(i.to_string());
    }
    s
}

fn app(is_dir: bool, profiles: &[&str]) -> Application {
    Application { primary_config: None, on_profiles: set(profiles), is_dir, ignore: Vec::new() }
}

fn profile(apps: &[&str]) -> Profile {
    Profile { apps: set(apps), app_sources: StrMap::new() }
}

fn local_config() -> SharedAppConfig {
    let mut apps = StrMap::new();
    apps.insert("nvim".to_string(), app(true, &["default"]));
    apps.insert("git".to_string(), app(false, &["default"]));
    let mut profiles = StrMap::new();
    profiles.insert("default".to_string(), profile(&["git", "nvim"]));
    profiles.insert("old".to_string(), profile(&[]));
    SharedAppConfig { remote: Some("git@host:me/dots".into()), profiles, apps, ignored: set(&["*.log"]) }
}

fn remote_config() -> SharedAppConfig {
    let mut apps = StrMap::new();
    apps.insert("nvim".to_string(), app(false, &["default"]));
    apps.insert("zsh".to_string(), app(false, &["default"]));
    let mut profiles = StrMap::new();
    profiles.insert("default".to_string(), profile(&["nvim", "zsh"]));
    profiles.insert("laptop".to_string(), profile(&["zsh"]));
    SharedAppConfig { remote: None, profiles, apps, ignored: set(&["*.tmp"]) }
}

#[test]
fn log_records_become_commits() {
    let out = "abc123\0first commit\02024-01-01 10:00:00 +0000\u{1}\ndef456\0second\02024-01-02 10:00:00 +0000\u{1}";
    let commits = parse_log(out);
    assert_eq!(commits.len(), 2);
    assert_eq!(commits[0].hash, "abc123");
    assert_eq!(commits[0].message, "first commit");
    assert_eq!(commits[1].hash, "def456");
    assert_eq!(commits[1].timestamp, "2024-01-02 10:00:00 +0000");
    assert!(parse_log("").is_empty());
    let short = parse_log("onlyhash");
    assert_eq!(short[0].message, "");
}

#[test]
fn diff_stat_summary() {
    assert_eq!(parse_git_stat("a.txt +5 -3\nb.txt +1 -0\n 2 files changed"), "a.txt+5/-3, b.txt+1/-0");
    let real = " src/a.rs | 3 ++-\n 1 file changed, 2 insertions(+), 1 deletion(-)";
    assert_eq!(parse_git_stat(real), " 1 file changed, 2 insertions(+), 1 deletion(-)");
    assert_eq!(parse_git_stat(""), "");
    let many = "a +1 -1\nb +1 -1\nc +1 -1\nd +1 -1\ne +1 -1\nf +1 -1";
    assert_eq!(parse_git_stat(many), "a+1/-1, b+1/-1, c+1/-1, d+1/-1, e+1/-1");
}

#[test]
fn merge_preferring_remote_takes_remote() {
    let (merged, notes) = merge_shared(local_config(), remote_config(), ConflictPreference::Remote);
    assert_eq!(merged.remote.as_deref(), Some("git@host:me/dots"));
    assert!(merged.apps.get("git").is_none());
    assert!(!merged.apps.get("nvim").unwrap().is_dir);
    assert!(merged.profiles.get("laptop").is_some());
    assert!(merged.profiles.get("old").is_none());
    assert!(merged.ignored.contains("*.tmp"));
    assert!(!merged.ignored.contains("*.log"));
    let msgs = note_messages(&notes);
    assert_eq!(msgs, vec![
        "ignored removed: '*.log' (remote)".to_string(),
        "apps.nvim.is_dir: local=true, remote=false, kept remote".to_string(),
        "apps.zsh: added from remote".to_string(),
        "apps.git: removed (not in remote)".to_string(),
        "profiles.laptop: added from remote".to_string(),
        "profiles.old: removed (not in remote)".to_string(),
    ]);
}

#[test]
fn merge_preferring_local_unites() {
    let (merged, notes) = merge_shared(local_config(), remote_config(), ConflictPreference::Local);
    assert!(merged.apps.get("nvim").unwrap().is_dir);
    assert!(merged.apps.get("git").is_some());
    assert!(merged.apps.get("zsh").is_some());
    let default = merged.profiles.get("default").unwrap();
    assert!(default.apps.contains("git") && default.apps.contains("zsh"));
    assert!(merged.profiles.get("old").is_some());
    assert!(merged.ignored.contains("*.log") && merged.ignored.contains("*.tmp"));
    assert!(matches!(notes[0], MergeNote::IgnoredAdded(_)));
    let msgs = note_messages(&notes);
    assert!(msgs.contains(&"profiles.default.apps added: 'zsh' (remote)".to_string()));
    assert!(msgs.contains(&"apps.nvim.is_dir: local=true, remote=false, kept local".to_string()));
}

#[test]
fn primary_config_conflict_uses_debug_text() {
    let mut local = local_config();
    let mut remote = remote_config();
    let mut a = local.apps.remove("nvim").unwrap();
    a.primary_config = Some("/a/init.lua".to_string());
    local.apps.insert("nvim".to_string(), a);
    let mut b = remote.apps.remove("nvim").unwrap();
    b.is_dir = true;
    b.ignore = vec!["x".to_string()];
    remote.apps.insert("nvim".to_string(), b);
    let (_, notes) = merge_shared(local, remote, ConflictPreference::Remote);
    let msgs = note_messages(&notes);
    assert!(msgs.contains(&"apps.nvim.primary_config: local=Some(\"/a/init.lua\"), remote=None, kept remote".to_string()));
    assert!(msgs.contains(&"apps.nvim.ignore: kept remote (1 patterns)".to_string()));
}

#[test]
fn sync_outcome_classifies() {
    assert!(matches!(sync_outcome(vec![], vec![], ConflictPreference::Local), SyncResult::Clean));
    assert!(matches!(sync_outcome(vec!["x".into()], vec![], ConflictPreference::Local), SyncResult::ConfigConflict { .. }));
    match sync_outcome(vec![], vec!["/b".into()], ConflictPreference::Remote) {
        SyncResult::FileConflict { backups, file_conflicts, .. } => {
            assert_eq!(backups, vec!["/b".to_string()]);
            assert!(file_conflicts.is_empty());
        }
        _ => panic!("expected a file conflict"),
    }
}

#[test]
fn git_output_helpers() {
    assert_eq!(conflict_files("a.txt\nb/c.toml\n"), vec!["a.txt".to_string(), "b/c.toml".to_string()]);
    assert_eq!(git_failure_detail(" out \n", ""), "out");
    assert_eq!(git_failure_detail("  ", " err "), "err");
    assert_eq!(git_failure_detail("out", "err"), "out\nerr");
    assert_eq!(commit_outcome(Err("nothing to commit, working tree clean".into())), Ok(false));
    assert_eq!(commit_outcome(Ok(())), Ok(true));
    assert_eq!(commit_outcome(Err("fatal".into())), Err("fatal".to_string()));
    assert_eq!(remote_outcome(Err("error: No such remote 'origin'".into())), Ok(None));
    assert_eq!(remote_outcome(Ok("url".into())), Ok(Some("url".to_string())));
}

#[test]
fn rollback_helpers() {
    let current = local_config();
    let target = remote_config();
    let (preserved, protected) = classify_apps(&current.apps, &target.apps);
    assert_eq!(preserved, vec!["nvim".to_string()]);
    assert_eq!(protected, vec!["git".to_string()]);
    assert_eq!(rollback_path("default", "nvim", true), "default/nvim");
    assert_eq!(rollback_path("default", "git", false), "default/misc/git");
    assert_eq!(short_hash("0123456789abcdef"), "0123456");
    assert_eq!(short_hash("HEAD~1"), "HEAD~1");
    assert_eq!(rollback_message("0123456", 2), "rollback to 0123456 + preserve 2 app(s)");
}

#[test]
fn restore_protected_puts_apps_back() {
    let pre = local_config();
    let mut link_paths = StrMap::new();
    link_paths.insert("git".to_string(), "/h/.gitconfig".to_string());
    let os = OsInfo { family: "unix".into(), name: "arch".into(), version: None, arch: "x86_64".into() };
    let pre_local = LocalAppConfig { active_profile: "default".into(), os_info: os.clone(), link_paths };
    let mut shared = remote_config();
    let mut local = LocalAppConfig { active_profile: "default".into(), os_info: os, link_paths: StrMap::new() };
    restore_protected(&mut shared, &mut local, &pre, &pre_local, &vec!["git".to_string()]);
    assert!(!shared.apps.get("git").unwrap().is_dir);
    assert!(shared.profiles.get("default").unwrap().apps.contains("git"));
    assert!(!shared.profiles.get("laptop").unwrap().apps.contains("git"));
    assert_eq!(local.link_paths.get("git").unwrap(), "/h/.gitconfig");
}

#[test]
fn save_returns_false_when_clean() {
    let result = commit_outcome(Err(
        "git commit -m nothing here failed: On branch main\nnothing to commit, working tree clean".into(),
    ))
    .unwrap();
    assert!(!result);
}

#[test]
fn log_returns_commits_in_order() {
    let out = "ccc333\0third\x002024-01-03 10:00:00 +0000\x01\nbbb222\0second\x002024-01-02 10:00:00 +0000\x01\naaa111\0first\x002024-01-01 10:00:00 +0000";
    let commits = parse_log(out);
    assert_eq!(commits.len(), 3);
    assert_eq!(commits[0].message, "third");
    assert_eq!(commits[1].message, "second");
    assert_eq!(commits[2].message, "first");
}

#[test]
fn set_and_get_remote() {
    assert!(remote_outcome(Err("git remote get-url origin failed: error: No such remote 'origin'".into())).unwrap().is_none());
    let url = remote_outcome(Ok("https://github.com/user/dotfiles.git".into())).unwrap();
    assert_eq!(url, Some("https://github.com/user/dotfiles.git".to_string()));
}

#[test]
fn sync_status_lines() {
    assert_eq!(sync_status(&Ok(SyncResult::Clean), 0), "Sync complete. Pushed to origin.");
    let resolved = SyncResult::ConfigConflict { resolved: vec!["x".into(), "y".into()] };
    assert_eq!(sync_status(&Ok(resolved), 0), "Sync complete. 2 config conflict(s) resolved. Pushed to origin.");
    let files = SyncResult::FileConflict {
        config_conflicts: vec![],
        file_conflicts: vec!["a".into(), "b".into()],
        backups: vec![],
        preference: ConflictPreference::Local,
    };
    assert_eq!(
        sync_status(&Ok(files), 3),
        "Sync conflict: a, b. Run 'cd ~/.roost && git status', fix conflicts, then sync again. 3 app(s) linked after sync."
    );
    let none = SyncResult::FileConflict {
        config_conflicts: vec![],
        file_conflicts: vec![],
        backups: vec!["b".into()],
        preference: ConflictPreference::Remote,
    };
    assert!(sync_status(&Ok(none), 0).starts_with("Sync conflict: file conflicts with remote."));
    assert_eq!(sync_status(&Err("boom".into()), 0), "Sync error: boom");
}

#[test]
fn merging_a_config_with_itself_changes_nothing() {
    for pref in [ConflictPreference::Local, ConflictPreference::Remote] {
        let (merged, notes) = merge_shared(local_config(), local_config(), pref);
        assert!(notes.is_empty());
        let keys = |m: &StrMap<Application>| m.entries().iter().map(|(k, _)| k.clone()).collect::<Vec<_>>();
        assert_eq!(keys(&merged.apps), vec!["git".to_string(), "nvim".to_string()]);
        assert_eq!(merged.profiles.len(), 2);
        assert!(merged.profiles.get("default").unwrap().apps.contains("nvim"));
        assert!(merged.profiles.get("default").unwrap().apps.contains("git"));
        assert_eq!(merged.ignored.len(), 1);
        assert!(merged.apps.get("nvim").unwrap().is_dir);
    }
}
