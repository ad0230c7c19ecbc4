use roost::data::{known_apps, known_dotfiles, known_non_configs, parse_list, DEFAULT_IGNORE_PATTERNS};

#[test]
fn known_apps_not_empty() {
    let apps = known_apps();
    assert!(!apps.is_empty());
    assert!(apps.contains("nvim"));
    assert!(apps.contains("git"));
}

#[test]
fn known_dotfiles_not_empty() {
    let files = known_dotfiles();
    assert!(!files.is_empty());
    assert!(files.contains(".zshrc"));
    assert!(files.contains(".gitconfig"));
}

#[test]
fn comments_and_blanks_filtered() {
    let apps = known_apps();
    assert!(!apps.contains(""));
    assert!(!apps.contains("# Shells"));
}

#[test]
fn default_ignore_patterns_has_16() {
    assert_eq!(DEFAULT_IGNORE_PATTERNS.len(), 16);
}

#[test]
fn known_non_configs_are_lowercase_folders() {
    let set = known_non_configs();
    assert!(set.contains("documents"));
    assert!(set.contains("pictures"));
    assert!(set.contains("caches"));
    assert!(!set.contains("nvim"));
}

#[test]
fn parse_list_trims_and_skips_comments() {
    let set = parse_list("# heading\n  alpha  \n\n\tbeta\r\n#gamma\nalpha\n");
    assert_eq!(set.len(), 2);
    assert!(set.contains("alpha"));
    assert!(set.contains("beta"));
    assert!(!set.contains("#gamma"));
    assert!(!set.contains("gamma"));
}

#[test]
fn parse_list_keeps_sorted_order() {
    let set = parse_list("zeta\nalpha\nmid\n");
    assert_eq!(set.at(0), "alpha");
    assert_eq!(set.at(1), "mid");
    assert_eq!(set.at(2), "zeta");
}
