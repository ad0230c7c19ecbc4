use roost::linker::{
    app_dest, check_links, copy_check, ensure_step, import_check, link_plan, orphans_in_profile,
    ingest_check, restore_check, should_unlink, switch_plan, unlink_check, validate_path_in_home, DirEntryInfo,
    EnsureStep, LinkEntry, LinkError, LinkStatus, OriginState, PathError, RestoreStep,
};

#[test]
fn app_dest_dir_vs_file() {
    assert_eq!(app_dest("/roost", "nvim", true), "/roost/nvim");
    assert_eq!(app_dest("/roost", "gitconfig", false), "/roost/misc/gitconfig");
}

#[test]
fn test_validate_path_rejects_outside_home() {
    let home = "/home/user";
    let bad = "/etc/passwd";
    assert!(validate_path_in_home(bad, home).is_err());
}

#[test]
fn test_validate_path_rejects_parent_dir() {
    let home = "/home/user";
    let bad = "/home/user/../etc/passwd";
    assert!(validate_path_in_home(bad, home).is_err());
}

#[test]
fn validate_path_reports_each_reason() {
    assert_eq!(validate_path_in_home("/etc/passwd", "/home/user"), Err(PathError::OutsideHome));
    assert_eq!(
        validate_path_in_home("/home/user/../etc/passwd", "/home/user"),
        Err(PathError::ParentComponent)
    );
    assert_eq!(validate_path_in_home("/home/user/.bashrc", "/home/user"), Ok(()));
    assert_eq!(validate_path_in_home("/home/username/.bashrc", "/home/user"), Err(PathError::OutsideHome));
}

fn symlink_to(t: &str) -> OriginState {
    OriginState { exists: true, is_symlink: true, link_target: Some(t.to_string()) }
}

fn absent() -> OriginState {
    OriginState { exists: false, is_symlink: false, link_target: None }
}

fn real_path() -> OriginState {
    OriginState { exists: true, is_symlink: false, link_target: None }
}

#[test]
fn link_checks_follow_what_was_found() {
    assert!(matches!(restore_check("/h/.zshrc", "/r/misc/zshrc", false, &absent()), Err(LinkError::NotInRoost(_))));
    assert_eq!(restore_check("/h/.zshrc", "/r/misc/zshrc", true, &absent()).unwrap(), RestoreStep::CreateLink);
    assert_eq!(
        restore_check("/h/.zshrc", "/r/misc/zshrc", true, &symlink_to("/r/misc//zshrc")).unwrap(),
        RestoreStep::AlreadyLinked
    );
    assert!(matches!(restore_check("/h/.zshrc", "/r/misc/zshrc", true, &symlink_to("/elsewhere")), Err(LinkError::WrongTarget { .. })));
    assert!(matches!(restore_check("/h/.zshrc", "/r/misc/zshrc", true, &real_path()), Err(LinkError::OriginIsReal(_))));
    assert!(unlink_check("/h/.zshrc", "/r/misc/zshrc", &symlink_to("/r/misc/zshrc")).is_ok());
    assert!(matches!(unlink_check("/h/.zshrc", "/r/misc/zshrc", &real_path()), Err(LinkError::NotASymlink(_))));
    assert!(should_unlink(&symlink_to("/r/a/"), "/r/a"));
    assert!(!should_unlink(&real_path(), "/r/a"));
    assert!(matches!(import_check("/r/s/nvim", "/r/t/nvim", "s", true, false, true), Err(LinkError::SourceIsSymlink { .. })));
    assert!(import_check("/r/s/nvim", "/r/t/nvim", "s", true, false, false).is_ok());
    assert!(matches!(copy_check("/r/s/nvim", "/r/t/nvim", true, true), Err(LinkError::TargetExists(_))));
    assert_eq!(
        LinkError::UnexpectedTarget { origin: "o".into(), target: "t".into(), expected: "e".into() }.message(),
        "symlink points to unexpected target: o -> t (expected e)"
    );
}

#[test]
fn ensure_step_backs_up_conflicts() {
    let entry = LinkEntry::Link(roost::linker::AppLink {
        app: "nvim".into(),
        origin: "/h/.config/nvim".into(),
        dest: "/r/default/nvim".into(),
        is_dir: true,
    });
    match ensure_step(&entry, &real_path(), "/r") {
        EnsureStep::Link { backup, notes } => {
            assert_eq!(backup.as_deref(), Some("/r/.backups/conflict-nvim"));
            assert_eq!(notes, vec![
                "BACKED UP conflicting path: /h/.config/nvim -> /r/.backups/conflict-nvim".to_string(),
                "LINKED: /h/.config/nvim -> /r/default/nvim".to_string(),
            ]);
        }
        _ => panic!("expected a link step"),
    }
    assert!(matches!(ensure_step(&entry, &symlink_to("/r/default/nvim"), "/r"), EnsureStep::InPlace));
    match ensure_step(&LinkEntry::NoLinkPath("git".into()), &absent(), "/r") {
        EnsureStep::Skip { note } => assert_eq!(note, "SKIP: no link_path for 'git'"),
        _ => panic!("expected a skip"),
    }
}

use roost::app::{Application, LocalAppConfig, Profile, SharedAppConfig};
use roost::collections::{StrMap, StrSet};
use roost::os_detect::OsInfo;

fn set(items: &[&str]) -> StrSet {
    let mut s = StrSet::new();
    for i in items {
        s.insert(i.to_string());
    }
    s
}

fn config() -> SharedAppConfig {
    let mut apps = StrMap::new();
    apps.insert("nvim".to_string(), Application { primary_config: None, on_profiles: set(&["default"]), is_dir: true, ignore: vec![] });
    apps.insert("git".to_string(), Application { primary_config: None, on_profiles: set(&["default"]), is_dir: false, ignore: vec![] });
    let mut profiles = StrMap::new();
    profiles.insert("default".to_string(), Profile { apps: set(&["ghost", "git", "nvim", "zsh"]), app_sources: StrMap::new() });
    profiles.insert("work".to_string(), Profile { apps: set(&["nvim"]), app_sources: StrMap::new() });
    SharedAppConfig { remote: None, profiles, apps, ignored: StrSet::new() }
}

fn local() -> LocalAppConfig {
    let mut link_paths = StrMap::new();
    link_paths.insert("nvim".to_string(), "/h/.config/nvim".to_string());
    link_paths.insert("git".to_string(), "/h/.gitconfig".to_string());
    LocalAppConfig {
        active_profile: "default".into(),
        os_info: OsInfo { family: "unix".into(), name: "arch".into(), version: None, arch: "x86_64".into() },
        link_paths,
    }
}

#[test]
fn plan_and_statuses() {
    let plan = link_plan(&config(), &local(), "/r", "default").unwrap();
    assert_eq!(plan.len(), 4);
    assert!(matches!(&plan[0], LinkEntry::UnknownApp(a) if a == "ghost"));
    match &plan[1] {
        LinkEntry::Link(l) => assert_eq!(l.dest, "/r/default/misc/git"),
        _ => panic!("git is linkable"),
    }
    assert!(matches!(&plan[3], LinkEntry::UnknownApp(a) if a == "zsh"));
    assert!(link_plan(&config(), &local(), "/r", "nope").is_none());
    let found = vec![absent(), symlink_to("/r/default/misc/git"), real_path(), absent()];
    let statuses = check_links(&plan, &found);
    assert_eq!(statuses.len(), 2);
    assert!(matches!(&statuses[0], LinkStatus::Linked { app, .. } if app == "git"));
    assert!(matches!(&statuses[1], LinkStatus::Conflict { app, .. } if app == "nvim"));
}

#[test]
fn switching_profiles_plans_links() {
    let (down, up) = switch_plan("default", "work", &config(), &local(), "/r").unwrap();
    assert_eq!(down.len(), 2);
    assert_eq!(up.len(), 1);
    assert_eq!(up[0].dest, "/r/work/nvim");
    assert!(matches!(switch_plan("default", "nope", &config(), &local(), "/r"), Err(LinkError::ProfileNotFound(_))));
}

#[test]
fn orphans_are_unclaimed_entries() {
    let top = vec![
        DirEntryInfo { name: "nvim".into(), is_dir: true, path: "/r/default/nvim".into() },
        DirEntryInfo { name: "misc".into(), is_dir: true, path: "/r/default/misc".into() },
        DirEntryInfo { name: ".git".into(), is_dir: true, path: "/r/default/.git".into() },
        DirEntryInfo { name: "tmux".into(), is_dir: true, path: "/r/default/tmux".into() },
    ];
    let misc = vec![
        DirEntryInfo { name: "git".into(), is_dir: false, path: "/r/default/misc/git".into() },
        DirEntryInfo { name: ".inputrc".into(), is_dir: false, path: "/r/default/misc/.inputrc".into() },
    ];
    let orphans = orphans_in_profile(&config(), "default", &top, &misc);
    let names: Vec<&str> = orphans.iter().map(|o| o.name.as_str()).collect();
    assert_eq!(names, vec!["tmux", ".inputrc"]);
    assert_eq!(orphans[0].profile, "default");
}

#[test]
fn ingest_rejects_nonexistent() {
    assert!(ingest_check("/no/such/path", &absent()).is_err());
}

#[test]
fn ingest_rejects_symlink() {
    assert!(ingest_check("/t/link.txt", &symlink_to("/t/real.txt")).is_err());
    assert!(ingest_check("/t/real.txt", &real_path()).is_ok());
}

#[test]
fn restore_skips_if_already_linked() {
    let dest = "/t/roost/laptop/nvim";
    let step = restore_check("/t/config/nvim", dest, true, &symlink_to(dest)).unwrap();
    assert_eq!(step, RestoreStep::AlreadyLinked);
}

#[test]
fn restore_rejects_real_file() {
    assert!(restore_check("/t/config/nvim", "/t/roost/laptop/nvim", true, &real_path()).is_err());
}

#[test]
fn unlink_rejects_non_symlink() {
    assert!(unlink_check("/t/real.txt", "/t/roost/laptop/misc/app", &real_path()).is_err());
}

#[test]
fn import_from_rejects_missing_source() {
    assert!(import_check("/r/desktop/nvim", "/r/laptop/nvim", "desktop", false, false, false).is_err());
}

#[test]
fn import_from_rejects_symlink_source() {
    assert!(import_check("/r/desktop/nvim", "/r/laptop/nvim", "desktop", true, false, true).is_err());
}

#[test]
fn copy_to_rejects_existing_target() {
    assert!(copy_check("/r/laptop/nvim", "/r/desktop/nvim", true, true).is_err());
    assert!(copy_check("/r/laptop/nvim", "/r/desktop/nvim", true, false).is_ok());
}

#[test]
fn switch_profile_rejects_unknown_profile() {
    let empty = SharedAppConfig { remote: None, profiles: StrMap::new(), apps: StrMap::new(), ignored: StrSet::new() };
    assert!(switch_plan("laptop", "nonexistent", &empty, &local(), "/r").is_err());
}

#[test]
fn test_validate_path_accepts_inside_home() {
    assert!(validate_path_in_home("/home/user/.bashrc", "/home/user").is_ok());
}

#[test]
fn ensure_links_creates_missing_symlinks() {
    let plan = link_plan(&config(), &local(), "/r", "default").unwrap();
    let linked: Vec<_> = plan.iter().filter(|e| matches!(e, LinkEntry::Link(_))).collect();
    assert_eq!(linked.len(), 2);
    for e in linked {
        match ensure_step(e, &absent(), "/r") {
            EnsureStep::Link { backup: None, notes } => {
                assert_eq!(notes.len(), 1);
                assert!(notes[0].starts_with("LINKED: "));
            },
            _ => panic!("a missing link is created"),
        }
    }
}

#[test]
fn ensure_links_skips_already_correct() {
    let plan = link_plan(&config(), &local(), "/r", "work").unwrap();
    assert!(matches!(ensure_step(&plan[0], &symlink_to("/r/work/nvim"), "/r"), EnsureStep::InPlace));
}

#[test]
fn ensure_links_backs_up_conflicting_real_file() {
    let plan = link_plan(&config(), &local(), "/r", "work").unwrap();
    match ensure_step(&plan[0], &real_path(), "/r") {
        EnsureStep::Link { backup: Some(b), notes } => {
            assert_eq!(b, "/r/.backups/conflict-nvim");
            assert_eq!(notes.len(), 2);
        },
        _ => panic!("a real directory is backed up"),
    }
}

#[test]
fn ensure_links_backs_up_wrong_symlink() {
    let plan = link_plan(&config(), &local(), "/r", "work").unwrap();
    match ensure_step(&plan[0], &symlink_to("/t/wrong/nvim"), "/r") {
        EnsureStep::Link { backup: Some(_), notes } => {
            assert!(notes.iter().any(|a| a.contains("BACKED UP")));
        },
        _ => panic!("a wrong link is backed up"),
    }
}

#[test]
fn a_linked_app_is_left_alone_and_reported_ok() {
    let plan = link_plan(&config(), &local(), "/r", "work").unwrap();
    let found = symlink_to("/r/work/nvim");
    assert!(matches!(ensure_step(&plan[0], &found, "/r"), EnsureStep::InPlace));
    let statuses = check_links(&plan, &[found]);
    assert!(matches!(&statuses[0], LinkStatus::Linked { .. }));
}
