use roost::app::Application;
use roost::collections::{StrMap, StrSet};
use roost::gitignore::{extract_user_rules, gitignore_content, translate_pattern, FOOTER, HEADER};

fn globals() -> StrSet {
    let mut s = StrSet::new();
    s.insert("*.swp".to_string());
    s
}

fn apps() -> StrMap<Application> {
    let mut on = StrSet::new();
    on.insert("default".to_string());
    let mut m = StrMap::new();
    m.insert("nvim".to_string(), Application { primary_config: None, on_profiles: on, is_dir: true, ignore: vec!["lazy-lock.json".to_string()] });
    m
}

#[test]
fn user_rules_survive_regeneration() {
    let existing = format!("build/\n\n{}\nold managed line\n{}\n\n*.bak\n", HEADER, FOOTER);
    let once = gitignore_content(Some(&existing), &globals(), &apps());
    assert_eq!(extract_user_rules(&once), extract_user_rules(&existing));
    assert_eq!(extract_user_rules(&once), "build/\n\n\n*.bak");
    let twice = gitignore_content(Some(&once), &globals(), &apps());
    assert_eq!(once, twice);
    assert!(once.starts_with(HEADER));
    assert!(once.contains("default/nvim/lazy-lock.json"));
    assert!(!once.contains("old managed line"));
}

#[test]
fn fresh_gitignore_has_only_the_block() {
    let fresh = gitignore_content(None, &StrSet::new(), &StrMap::new());
    assert_eq!(fresh, format!("{}\nlocal.toml\n.backups/\n*.local\n{}\n", HEADER, FOOTER));
    assert!(!translate_pattern("*.log").is_empty());
}

fn make_app(ignore: Vec<&str>, is_dir: bool) -> Application {
    let mut on_profiles = StrSet::new();
    on_profiles.insert("default".to_string());
    Application { primary_config: None, on_profiles, is_dir, ignore: ignore.into_iter().map(|s| s.to_string()).collect() }
}

/// What regenerating writes over a `.gitignore` holding `existing` (none when absent).
fn regenerate(existing: Option<&str>, globals: &StrSet, apps: &StrMap<Application>) -> String {
    gitignore_content(existing, globals, apps)
}

#[test]
fn generates_basic_gitignore() {
    let content = regenerate(None, &StrSet::new(), &StrMap::new());
    assert!(content.contains("local.toml"));
    assert!(content.contains(".backups/"));
    assert!(content.contains("*.local"));
    assert!(content.contains(HEADER));
    assert!(content.contains(FOOTER));
}

#[test]
fn includes_global_patterns() {
    let mut globals = StrSet::new();
    globals.insert("node_modules".to_string());
    globals.insert("*.log".to_string());
    let content = regenerate(None, &globals, &StrMap::new());
    assert!(content.contains("node_modules"));
    assert!(content.contains("*.log"));
}

#[test]
fn translates_git_to_safe_form() {
    let mut globals = StrSet::new();
    globals.insert(".git".to_string());
    let content = regenerate(None, &globals, &StrMap::new());
    assert!(content.contains("**/.git/"));
    assert!(!content.contains("\n.git\n"));
}

#[test]
fn includes_per_app_patterns() {
    let mut apps = StrMap::new();
    apps.insert("sketchybar".to_string(), make_app(vec!["clipboard*"], true));
    let content = regenerate(None, &StrSet::new(), &apps);
    assert!(content.contains("default/sketchybar/clipboard*"));
}

#[test]
fn skips_file_apps_for_per_app_rules() {
    let mut apps = StrMap::new();
    apps.insert("zshrc".to_string(), make_app(vec!["should-not-appear"], false));
    let content = regenerate(None, &StrSet::new(), &apps);
    assert!(!content.contains("should-not-appear"));
}

#[test]
fn preserves_user_rules() {
    let existing = format!("{HEADER}\nlocal.toml\n{FOOTER}\n\n# my custom rule\nsecrets.txt\n");
    let mut globals = StrSet::new();
    globals.insert("node_modules".to_string());
    let content = regenerate(Some(&existing), &globals, &StrMap::new());
    assert!(content.contains("node_modules"));
    assert!(content.contains("secrets.txt"));
    assert!(content.contains("# my custom rule"));
}

#[test]
fn regenerate_is_idempotent() {
    let mut globals = StrSet::new();
    globals.insert("*.log".to_string());
    let apps = StrMap::new();
    let first = regenerate(None, &globals, &apps);
    let second = regenerate(Some(&first), &globals, &apps);
    assert_eq!(first, second);
}

#[test]
fn regenerating_is_not_idempotent_when_a_pattern_holds_a_footer_line() {
    let mut globals = StrSet::new();
    globals.insert(format!("x\n{}\ny", FOOTER));
    let apps = StrMap::new();
    let first = regenerate(None, &globals, &apps);
    let second = regenerate(Some(&first), &globals, &apps);
    assert_ne!(first, second);
    assert!(second.ends_with("\n\ny\n"));
}

#[test]
fn regenerating_is_not_idempotent_when_a_rule_keeps_a_carriage_return() {
    let globals = StrSet::new();
    let apps = StrMap::new();
    let first = regenerate(Some("secret\r\r\n"), &globals, &apps);
    let second = regenerate(Some(&first), &globals, &apps);
    assert_ne!(first, second);
}

#[test]
fn regenerating_is_idempotent_for_a_pattern_with_a_line_break() {
    let mut globals = StrSet::new();
    globals.insert("build\ndist".to_string());
    globals.insert("cache\r".to_string());
    let apps = StrMap::new();
    let first = regenerate(Some("# mine\nsecrets.txt\n"), &globals, &apps);
    let second = regenerate(Some(&first), &globals, &apps);
    assert_eq!(first, second);
    assert!(second.contains("secrets.txt"));
}
