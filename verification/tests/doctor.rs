use roost::app::{guess_primary_configs, Application, LocalAppConfig, Profile, SharedAppConfig};
use roost::collections::{StrMap, StrSet};
use roost::doctor::{config_findings, doctor_verdict, link_severity, Finding, Severity, Verdict};
use roost::linker::LinkStatus;
use roost::os_detect::OsInfo;

fn app(on: &[&str], is_dir: bool) -> Application {
    let mut s = StrSet::new();
    for p in on {
        s.insert(p.to_string());
    }
    Application { primary_config: None, on_profiles: s, is_dir, ignore: vec![] }
}

fn broken_config() -> SharedAppConfig {
    let mut apps = StrMap::new();
    apps.insert("nvim".to_string(), app(&["work"], true));
    apps.insert("stray".to_string(), app(&[], false));
    let mut work = StrSet::new();
    work.insert("nvim".into());
    work.insert("ghost".into());
    let mut sources = StrMap::new();
    sources.insert("nvim".to_string(), "gone".to_string());
    sources.insert("vanished".to_string(), "work".to_string());
    let mut profiles = StrMap::new();
    profiles.insert("work".to_string(), Profile { apps: work, app_sources: sources });
    SharedAppConfig { remote: None, profiles, apps, ignored: StrSet::new() }
}

fn local(links: &[(&str, &str)]) -> LocalAppConfig {
    let mut link_paths = StrMap::new();
    for (a, p) in links {
        link_paths.insert(a.to_string(), p.to_string());
    }
    LocalAppConfig {
        active_profile: "work".into(),
        os_info: OsInfo { family: "unix".into(), name: "arch".into(), version: None, arch: "x86_64".into() },
        link_paths,
    }
}

#[test]
fn doctor_reports_every_inconsistency() {
    let cfg = broken_config();
    let found = config_findings(&cfg, "work").expect("the active profile exists");
    let messages: Vec<String> = found.iter().map(|f| f.message()).collect();
    assert_eq!(
        messages,
        vec![
            "App 'ghost' in profile 'work' but missing from apps".to_string(),
            "App 'stray' not in any profile".to_string(),
            "Profile 'work' app 'nvim' references non-existent source 'gone'".to_string(),
            "Profile 'work' references non-existent app 'vanished'".to_string(),
        ]
    );
    assert!(found[0].is_error());
    assert!(!found[1].is_error());
    assert!(matches!(found[1], Finding::AppOnNoProfile { .. }));
    assert!(config_findings(&cfg, "home").is_none());
    assert_eq!(doctor_verdict(&found, &[], 0), Verdict::Errors);
}

#[test]
fn doctor_verdicts() {
    let ok = LinkStatus::Linked { app: "a".into(), origin: "/h/a".into(), target: "/r/a".into() };
    let missing = LinkStatus::Missing { app: "a".into(), origin: "/h/a".into(), target: "/r/a".into() };
    let conflict = LinkStatus::Conflict { app: "a".into(), origin: "/h/a".into() };
    assert_eq!(link_severity(&ok), Severity::Fine);
    assert_eq!(link_severity(&missing), Severity::Warning);
    assert_eq!(link_severity(&conflict), Severity::Error);
    assert_eq!(doctor_verdict(&[], &[ok.clone()], 0), Verdict::Clean);
    assert_eq!(doctor_verdict(&[], &[ok.clone()], 2), Verdict::Warnings);
    assert_eq!(doctor_verdict(&[], &[ok.clone(), missing.clone()], 0), Verdict::Warnings);
    assert_eq!(doctor_verdict(&[], &[missing, conflict], 0), Verdict::Errors);
}

#[test]
fn primary_configs_are_guessed() {
    let mut apps = StrMap::new();
    apps.insert("git".to_string(), app(&["work"], false));
    apps.insert("nvim".to_string(), app(&["work"], true));
    apps.insert("zsh".to_string(), app(&["work"], true));
    let mut chosen = app(&["work"], false);
    chosen.primary_config = Some("/h/.tmux.conf".into());
    apps.insert("tmux".to_string(), chosen);
    let mut cfg = SharedAppConfig { remote: None, profiles: StrMap::new(), apps, ignored: StrSet::new() };
    let loc = local(&[("git", "/h/.gitconfig"), ("nvim", "/h/.config/nvim"), ("zsh", "/h/.zsh"), ("tmux", "/h/t")]);
    let mut single = StrMap::new();
    single.insert("nvim".to_string(), "init.lua".to_string());
    guess_primary_configs(&mut cfg, &loc, &single);
    assert_eq!(cfg.apps.get("git").unwrap().primary_config.as_deref(), Some("/h/.gitconfig"));
    assert_eq!(cfg.apps.get("nvim").unwrap().primary_config.as_deref(), Some("/h/.config/nvim/init.lua"));
    assert_eq!(cfg.apps.get("zsh").unwrap().primary_config, None);
    assert_eq!(cfg.apps.get("tmux").unwrap().primary_config.as_deref(), Some("/h/.tmux.conf"));
}
