use roost::app::{Application, LocalAppConfig, Profile, SharedAppConfig};
use roost::collections::{StrMap, StrSet};
use roost::ops::{
    add_app_check, add_ignore, adopt_orphans, copy_app_check, create_profile, delete_profile,
    detach_app, forget_app, import_app_check, record_copy, record_import, register_app,
    remove_ignore, rename_profile, set_primary, OpError,
};
use roost::os_detect::OsInfo;

fn set(items: &[&str]) -> StrSet {
    let mut s = StrSet::new();
    for i in items {
        s.insert(i.to_string());
    }
    s
}

fn app(is_dir: bool, profiles: &[&str]) -> Application {
    Application { primary_config: None, on_profiles: set(profiles), is_dir, ignore: Vec::new() }
}

fn profile(apps: &[&str]) -> Profile {
    Profile { apps: set(apps), app_sources: StrMap::new() }
}

fn config() -> SharedAppConfig {
    let mut apps = StrMap::new();
    apps.insert("nvim".to_string(), app(true, &["default", "work"]));
    apps.insert("git".to_string(), app(false, &["default"]));
    let mut profiles = StrMap::new();
    profiles.insert("default".to_string(), profile(&["git", "nvim"]));
    profiles.insert("work".to_string(), profile(&["nvim"]));
    SharedAppConfig { remote: None, profiles, apps, ignored: StrSet::new() }
}

fn local(active: &str) -> LocalAppConfig {
    let mut link_paths = StrMap::new();
    link_paths.insert("nvim".to_string(), "/home/u/.config/nvim".to_string());
    link_paths.insert("git".to_string(), "/home/u/.gitconfig".to_string());
    LocalAppConfig {
        active_profile: active.to_string(),
        os_info: OsInfo { family: "unix".into(), name: "arch".into(), version: None, arch: "x86_64".into() },
        link_paths,
    }
}

#[test]
fn add_app_checks_in_order() {
    let cfg = config();
    let loc = local("default");
    assert!(matches!(add_app_check("/etc/zshrc", "zsh", "/home/u", true, &cfg, &loc), Err(OpError::Path(_))));
    assert!(matches!(add_app_check("/home/u/.zshrc", "a/b", "/home/u", true, &cfg, &loc), Err(OpError::Name(_))));
    assert!(matches!(add_app_check("/home/u/.zshrc", "zsh", "/home/u", false, &cfg, &loc), Err(OpError::PathMissing(_))));
    assert!(matches!(add_app_check("/home/u/.config/nvim", "nvim", "/home/u", true, &cfg, &loc), Err(OpError::AlreadyManaged(_))));
    assert!(add_app_check("/home/u/.zshrc", "zsh", "/home/u", true, &cfg, &loc).is_ok());
}

#[test]
fn register_then_forget_app() {
    let mut cfg = config();
    let mut loc = local("default");
    register_app(&mut cfg, &mut loc, "zsh", "/home/u/.zshrc", false);
    let a = cfg.apps.get("zsh").unwrap();
    assert!(!a.is_dir);
    assert!(a.on_profiles.contains("default"));
    assert!(cfg.profiles.get("default").unwrap().apps.contains("zsh"));
    assert_eq!(loc.link_paths.get("zsh").unwrap(), "/home/u/.zshrc");
    let d = detach_app("zsh", &mut cfg, &loc).unwrap();
    assert!(!d.still_used);
    assert_eq!(d.origin, "/home/u/.zshrc");
    forget_app(&mut cfg, &mut loc, "zsh");
    assert!(cfg.apps.get("zsh").is_none());
    assert!(loc.link_paths.get("zsh").is_none());
}

#[test]
fn detach_keeps_app_used_elsewhere() {
    let mut cfg = config();
    let loc = local("default");
    let d = detach_app("nvim", &mut cfg, &loc).unwrap();
    assert!(d.still_used);
    assert!(d.is_dir);
    assert!(!cfg.profiles.get("default").unwrap().apps.contains("nvim"));
    assert!(!cfg.apps.get("nvim").unwrap().on_profiles.contains("default"));
    assert!(matches!(detach_app("zsh", &mut config(), &loc), Err(OpError::NoLinkPath(_))));
}

#[test]
fn create_profile_copies_source() {
    let mut cfg = config();
    let tasks = create_profile("laptop", Some("default"), &mut cfg, "/r").unwrap();
    assert_eq!(tasks.len(), 2);
    assert_eq!(tasks[0].source, "/r/default/misc/git");
    assert_eq!(tasks[0].target, "/r/laptop/misc/git");
    assert_eq!(tasks[1].source, "/r/default/nvim");
    assert!(cfg.profiles.get("laptop").unwrap().apps.contains("nvim"));
    assert!(matches!(create_profile("laptop", None, &mut cfg, "/r"), Err(OpError::ProfileExists(_))));
    assert!(matches!(create_profile("x", Some("nope"), &mut cfg, "/r"), Err(OpError::SourceProfileNotFound(_))));
    assert!(create_profile("empty", None, &mut cfg, "/r").unwrap().is_empty());
    assert!(cfg.profiles.get("empty").unwrap().apps.is_empty());
}

#[test]
fn delete_profile_drops_orphaned_apps_and_falls_back() {
    let mut cfg = config();
    let mut loc = local("default");
    let fallback = delete_profile("default", &mut cfg, &mut loc).unwrap();
    assert_eq!(fallback.as_deref(), Some("work"));
    assert_eq!(loc.active_profile, "work");
    assert!(cfg.apps.get("git").is_none());
    assert!(!cfg.apps.get("nvim").unwrap().on_profiles.contains("default"));
    assert!(cfg.profiles.get("default").is_none());
    assert!(matches!(delete_profile("default", &mut cfg, &mut loc), Err(OpError::ProfileMissing(_))));
}

#[test]
fn rename_profile_updates_everything() {
    let mut cfg = config();
    cfg.profiles.get("work").unwrap();
    let mut work = cfg.profiles.remove("work").unwrap();
    work.app_sources.insert("nvim".to_string(), "default".to_string());
    cfg.profiles.insert("work".to_string(), work);
    let mut loc = local("default");
    rename_profile("default", "home", &mut cfg, &mut loc).unwrap();
    assert!(cfg.profiles.get("default").is_none());
    assert!(cfg.profiles.get("home").unwrap().apps.contains("git"));
    assert!(cfg.apps.get("nvim").unwrap().on_profiles.contains("home"));
    assert!(!cfg.apps.get("nvim").unwrap().on_profiles.contains("default"));
    assert_eq!(cfg.profiles.get("work").unwrap().app_sources.get("nvim").unwrap(), "home");
    assert_eq!(loc.active_profile, "home");
    assert!(matches!(rename_profile("home", "work", &mut cfg, &mut loc), Err(OpError::ProfileExists(_))));
}

#[test]
fn import_and_copy_checks() {
    let cfg = config();
    let loc = local("work");
    assert!(import_app_check("git", "default", &cfg, &loc).is_ok());
    assert!(matches!(import_app_check("nvim", "default", &cfg, &loc), Err(OpError::AlreadyInProfile { .. })));
    assert!(matches!(import_app_check("git", "work", &cfg, &loc), Err(OpError::ImportFromSelf)));
    assert!(matches!(import_app_check("zsh", "default", &cfg, &loc), Err(OpError::AppNotInProfile { .. })));
    let loc2 = local("default");
    assert!(matches!(copy_app_check("git", "work", &cfg, &loc2), Ok(())));
    assert!(matches!(copy_app_check("nvim", "work", &cfg, &loc2), Err(OpError::AlreadyInProfile { .. })));
    assert!(matches!(copy_app_check("zsh", "work", &cfg, &loc2), Err(OpError::NotInActiveProfile { .. })));
}

#[test]
fn record_import_and_copy_update_config() {
    let mut cfg = config();
    record_import(&mut cfg, "git", "default", "work");
    let work = cfg.profiles.get("work").unwrap();
    assert!(work.apps.contains("git"));
    assert_eq!(work.app_sources.get("git").unwrap(), "default");
    assert!(cfg.apps.get("git").unwrap().on_profiles.contains("work"));
    let mut cfg2 = config();
    record_copy(&mut cfg2, "git", "work");
    assert!(cfg2.profiles.get("work").unwrap().apps.contains("git"));
    assert!(cfg2.profiles.get("work").unwrap().app_sources.get("git").is_none());
}

#[test]
fn set_primary_maps_roost_paths_back() {
    let mut cfg = config();
    let loc = local("default");
    set_primary("nvim", "/r/default/nvim/init.lua", None, &mut cfg, &loc, "/r").unwrap();
    assert_eq!(cfg.apps.get("nvim").unwrap().primary_config.as_deref(), Some("/home/u/.config/nvim/init.lua"));
    set_primary("nvim", "/elsewhere/x", None, &mut cfg, &loc, "/r").unwrap();
    assert_eq!(cfg.apps.get("nvim").unwrap().primary_config.as_deref(), Some("/elsewhere/x"));
    assert!(matches!(set_primary("zsh", "/x", None, &mut cfg, &loc, "/r"), Err(OpError::AppNotFound(_))));
}

#[test]
fn ignore_patterns_add_and_remove() {
    let mut cfg = config();
    assert_eq!(add_ignore(None, "*.log", &mut cfg).unwrap(), true);
    assert_eq!(add_ignore(None, "*.log", &mut cfg).unwrap(), false);
    assert_eq!(remove_ignore(None, "*.log", &mut cfg).unwrap(), true);
    assert_eq!(remove_ignore(None, "*.log", &mut cfg).unwrap(), false);
    assert_eq!(add_ignore(Some("nvim"), "lazy-lock.json", &mut cfg).unwrap(), true);
    assert_eq!(add_ignore(Some("nvim"), "lazy-lock.json", &mut cfg).unwrap(), false);
    assert_eq!(cfg.apps.get("nvim").unwrap().ignore, vec!["lazy-lock.json".to_string()]);
    assert_eq!(remove_ignore(Some("nvim"), "lazy-lock.json", &mut cfg).unwrap(), true);
    assert!(cfg.apps.get("nvim").unwrap().ignore.is_empty());
    assert!(matches!(add_ignore(Some("zsh"), "x", &mut cfg), Err(OpError::AppNotFound(_))));
}

#[test]
fn adopt_orphans_registers_names() {
    let mut cfg = config();
    let loc = local("work");
    let n = adopt_orphans(&["tmux".to_string(), "alacritty".to_string()], &[false, true], &mut cfg, &loc).unwrap();
    assert_eq!(n, 2);
    assert!(cfg.apps.get("alacritty").unwrap().is_dir);
    assert!(cfg.profiles.get("work").unwrap().apps.contains("tmux"));
    let err = adopt_orphans(&["ok".to_string(), "bad/name".to_string()], &[true, true], &mut cfg, &loc);
    assert!(matches!(err, Err(OpError::Name(_))));
    assert!(cfg.apps.get("ok").is_some());
}

#[test]
fn op_error_messages() {
    assert_eq!(OpError::AlreadyManaged("nvim".into()).message(), "App 'nvim' already managed.");
    assert_eq!(
        OpError::AppNotInProfile { app: "git".into(), profile: "work".into() }.message(),
        "App 'git' not found in profile 'work'."
    );
    assert_eq!(OpError::ImportFromSelf.message(), "Cannot import from the same profile.");
}

#[test]
fn wizard_adds_a_profile_to_an_existing_config() {
    let c = config();
    let before = c.profiles.len();
    let n = roost::ops::wizard_config(Some(c), "desk", Some("git@host:dots".into())).ok().expect("added");
    assert_eq!(n.profiles.len(), before + 1);
    assert!(n.profiles.get("desk").unwrap().apps.is_empty());
    assert_eq!(n.remote.as_deref(), Some("git@host:dots"));
    assert!(n.apps.contains_key("nvim"));
}

#[test]
fn wizard_keeps_the_recorded_remote_when_none_is_given() {
    let mut c = config();
    c.remote = Some("old".into());
    let n = roost::ops::wizard_config(Some(c), "desk", None).ok().expect("added");
    assert_eq!(n.remote.as_deref(), Some("old"));
}

#[test]
fn wizard_refuses_an_existing_profile() {
    match roost::ops::wizard_config(Some(config()), "default", None) {
        Err(e) => assert_eq!(e.message(), "Profile 'default' already exists."),
        Ok(_) => panic!("expected a refusal"),
    }
}

#[test]
fn wizard_starts_a_fresh_config() {
    let n = roost::ops::wizard_config(None, "laptop", None).ok().expect("fresh");
    assert_eq!(n.profiles.len(), 1);
    assert!(n.profiles.contains_key("laptop"));
    assert!(n.apps.is_empty());
    assert!(n.ignored.is_empty());
    assert!(n.remote.is_none());
}
