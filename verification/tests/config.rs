use roost::app::{
    local_config_path, profile_dir, roost_dir_from, shared_config_path, validate_app_name,
    validate_profile_name, NameError, Profile,
};
use roost::app::{validate_shared, Application, SharedAppConfig};
use roost::collections::{StrMap, StrSet};
use roost::paths::{from_tilde, join, strip_path_prefix, to_tilde};

#[test]
fn test_profile_empty_has_no_apps() {
    let p = Profile::empty();
    assert!(p.apps.is_empty());
    assert!(p.app_sources.is_empty());
}

#[test]
fn config_paths_live_in_roost_dir() {
    assert_eq!(profile_dir("/r", "laptop"), "/r/laptop");
    assert_eq!(shared_config_path("/r"), "/r/roost.toml");
    assert_eq!(local_config_path("/r/"), "/r/local.toml");
}

#[test]
fn roost_dir_respects_env_var() {
    assert_eq!(roost_dir_from(Some("/tmp/test-roost".to_string()), "/home/u"), "/tmp/test-roost");
    assert_eq!(roost_dir_from(None, "/home/u"), "/home/u/.roost");
}

#[test]
fn names_are_validated() {
    assert_eq!(validate_app_name("nvim"), Ok(()));
    assert_eq!(validate_app_name(""), Err(NameError::Empty));
    assert_eq!(validate_app_name(".."), Err(NameError::DotName));
    assert_eq!(validate_app_name("app/../../etc"), Err(NameError::HasSeparator));
    assert_eq!(validate_profile_name("../../etc"), Err(NameError::HasSeparator));
    assert_eq!(validate_profile_name(".hidden"), Ok(()));
}

#[test]
fn join_follows_path_rules() {
    assert_eq!(join("/a", "b"), "/a/b");
    assert_eq!(join("/a/", "b"), "/a/b");
    assert_eq!(join("/a", "/abs"), "/abs");
    assert_eq!(join("", "b"), "b");
}

#[test]
fn tilde_round_trip() {
    assert_eq!(to_tilde("/home/u/.config/nvim", "/home/u"), "~/.config/nvim");
    assert_eq!(to_tilde("/home/u", "/home/u"), "~/");
    assert_eq!(to_tilde("/home/user2/x", "/home/u"), "/home/user2/x");
    assert_eq!(to_tilde("/etc/hosts", "/home/u"), "/etc/hosts");
    assert_eq!(from_tilde("~/.config/nvim", "/home/u"), "/home/u/.config/nvim");
    assert_eq!(from_tilde("~", "/home/u"), "/home/u");
    assert_eq!(from_tilde("/etc/hosts", "/home/u"), "/etc/hosts");
}

#[test]
fn strip_prefix_is_component_wise() {
    assert_eq!(strip_path_prefix("/home/u/a/b", "/home/u"), Some("a/b".to_string()));
    assert_eq!(strip_path_prefix("/home/u/a", "/home/u/"), Some("a".to_string()));
    assert_eq!(strip_path_prefix("/home/ux", "/home/u"), None);
    assert_eq!(strip_path_prefix("/x/y", "/"), Some("x/y".to_string()));
}

fn make_shared_config() -> SharedAppConfig {
    let mut laptop = StrSet::new();
    laptop.insert("laptop".into());
    let mut apps = StrMap::new();
    apps.insert(
        "nvim".to_string(),
        Application { primary_config: Some("init.lua".into()), on_profiles: laptop.duplicate(), is_dir: true, ignore: vec![] },
    );
    apps.insert("git".to_string(), Application { primary_config: None, on_profiles: laptop, is_dir: false, ignore: vec![] });
    let mut listed = StrSet::new();
    listed.insert("nvim".into());
    listed.insert("git".into());
    let mut profiles = StrMap::new();
    profiles.insert("laptop".to_string(), Profile { apps: listed, app_sources: StrMap::new() });
    let mut ignored = StrSet::new();
    ignored.insert(".DS_Store".into());
    ignored.insert("*.log".into());
    SharedAppConfig { remote: Some("git@github.com:user/dotfiles".into()), profiles, apps, ignored }
}

#[test]
fn validate_rejects_unknown_app_in_profile() {
    let mut config = make_shared_config();
    let mut p = config.profiles.remove("laptop").unwrap();
    p.apps.insert("nonexistent".into());
    config.profiles.insert("laptop".to_string(), p);
    let result = validate_shared(&config);
    assert!(result.is_err());
    let err = result.unwrap_err().message();
    assert!(err.contains("unknown app 'nonexistent'"));
}

#[test]
fn validate_rejects_unknown_profile_in_app() {
    let mut config = make_shared_config();
    let mut a = config.apps.remove("nvim").unwrap();
    a.on_profiles.insert("nonexistent".into());
    config.apps.insert("nvim".to_string(), a);
    let result = validate_shared(&config);
    assert!(result.is_err());
    let err = result.unwrap_err().message();
    assert!(err.contains("unknown profile 'nonexistent'"));
}

#[test]
fn validate_rejects_cycle_in_app_sources() {
    let mut config = make_shared_config();
    let mut shared_apps = StrSet::new();
    shared_apps.insert("nvim".into());
    let mut back = StrMap::new();
    back.insert("nvim".to_string(), "laptop".to_string());
    config.profiles.insert("shared".to_string(), Profile { apps: shared_apps, app_sources: back });
    let mut p = config.profiles.remove("laptop").unwrap();
    p.app_sources.insert("nvim".to_string(), "shared".to_string());
    config.profiles.insert("laptop".to_string(), p);
    let result = validate_shared(&config);
    assert!(result.is_err());
    let err = result.unwrap_err().message();
    assert!(err.contains("cycle detected"));
}

#[test]
fn validate_rejects_unknown_source_profile() {
    let mut config = make_shared_config();
    let mut p = config.profiles.remove("laptop").unwrap();
    p.app_sources.insert("nvim".to_string(), "ghost".to_string());
    config.profiles.insert("laptop".to_string(), p);
    let result = validate_shared(&config);
    assert!(result.is_err());
    let err = result.unwrap_err().message();
    assert!(err.contains("unknown profile 'ghost'"));
}

#[test]
fn validate_accepts_valid_config() {
    let config = make_shared_config();
    assert!(validate_shared(&config).is_ok());
}

fn machine(links: &[(&str, &str)]) -> roost::app::LocalAppConfig {
    let mut link_paths = StrMap::new();
    for (k, v) in links {
        link_paths.insert(k.to_string(), v.to_string());
    }
    roost::app::LocalAppConfig {
        active_profile: "laptop".into(),
        os_info: roost::os_detect::OsInfo { family: "unix".into(), name: "arch".into(), version: None, arch: "x86_64".into() },
        link_paths,
    }
}

#[test]
fn legacy_link_paths_are_taken_over_once() {
    let mut legacy = StrMap::new();
    legacy.insert("nvim".to_string(), "/home/u/.config/nvim".to_string());
    legacy.insert("bash".to_string(), "/home/u/.bashrc".to_string());
    let mut local = machine(&[]);
    assert!(roost::app::adopt_legacy_link_paths(&mut local, &legacy));
    assert_eq!(local.link_paths.len(), 2);
    assert_eq!(local.link_paths.get("nvim").map(|s| s.as_str()), Some("/home/u/.config/nvim"));
    assert!(local.link_paths.contains_key("bash"));
    // A second run finds link paths and changes nothing.
    assert!(!roost::app::adopt_legacy_link_paths(&mut local, &legacy));
    assert_eq!(local.link_paths.len(), 2);
}

#[test]
fn existing_link_paths_win_over_legacy_ones() {
    let mut legacy = StrMap::new();
    legacy.insert("zsh".to_string(), "/home/u/.zshrc".to_string());
    let mut local = machine(&[("nvim", "/home/.config/nvim")]);
    assert!(!roost::app::adopt_legacy_link_paths(&mut local, &legacy));
    assert_eq!(local.link_paths.len(), 1);
    assert!(local.link_paths.contains_key("nvim"));
    let mut empty_machine = machine(&[]);
    assert!(!roost::app::adopt_legacy_link_paths(&mut empty_machine, &StrMap::new()));
}
