use roost::collections::StrSet;
use roost::scanner::{
    default_scan_sources, discover_items, has_config_children, is_config_file, matches_ignore,
    scan_sources, score_item, DiscoveredItem, ItemType, ListedEntry, ScanSource,
};

fn set_of(items: &[&str]) -> StrSet {
    let mut s = StrSet::new();
    for i in items {
        s.insert(i.to_string());
    }
    s
}

fn entry(name: &str, is_dir: bool, config_children: bool) -> ListedEntry {
    ListedEntry {
        name: name.to_string(),
        path: format!("/src/{}", name),
        is_dir,
        has_config_children: config_children,
    }
}

#[test]
fn score_known_dotfile() {
    let score = score_item(".zshrc", &ItemType::File, false);
    assert_eq!(score, 200);
}

#[test]
fn score_known_app_dir() {
    let score = score_item("nvim", &ItemType::Dir, false);
    assert_eq!(score, 150);
}

#[test]
fn score_dir_with_config_children() {
    let children = vec!["config.toml".to_string()];
    let score = score_item("myapp", &ItemType::Dir, has_config_children(&children));
    assert_eq!(score, 100);
}

#[test]
fn score_dir_without_config_children() {
    let children = vec!["readme.txt".to_string()];
    let score = score_item("myapp", &ItemType::Dir, has_config_children(&children));
    assert_eq!(score, 50);
}

#[test]
fn score_config_file() {
    let score = score_item("settings.toml", &ItemType::File, false);
    assert_eq!(score, 80);
}

#[test]
fn score_unknown_file() {
    let score = score_item("readme.txt", &ItemType::File, false);
    assert_eq!(score, 10);
}

#[test]
fn score_known_app_is_case_insensitive() {
    assert_eq!(score_item("NVIM", &ItemType::Dir, false), 150);
}

#[test]
fn config_extension_is_case_insensitive() {
    assert!(is_config_file("Settings.TOML"));
    assert!(is_config_file(".zshrc.rc"));
    assert!(!is_config_file("notes.txt"));
}

#[test]
fn dot_child_marks_config_dir() {
    let children = vec!["readme.txt".to_string(), ".hidden".to_string()];
    assert!(has_config_children(&children));
}

#[test]
fn ignore_exact_match() {
    let ignored = set_of(&["node_modules"]);
    assert!(matches_ignore("node_modules", &ignored));
}

#[test]
fn ignore_suffix_wildcard() {
    let ignored = set_of(&["*.log"]);
    assert!(matches_ignore("error.log", &ignored));
    assert!(!matches_ignore("error.txt", &ignored));
}

#[test]
fn no_ignore_when_not_matching() {
    let ignored = set_of(&["*.log", "node_modules"]);
    assert!(!matches_ignore("config.toml", &ignored));
}

#[test]
fn discover_skips_ignored_and_non_configs_and_sorts() {
    let ignored = set_of(&["node_modules"]);
    let entries = vec![
        entry("random.txt", false, false),
        entry("node_modules", true, false),
        entry("Documents", true, false),
        entry(".DS_Store", false, false),
        entry("nvim", true, false),
        entry(".zshrc", false, false),
        entry("settings.toml", false, false),
    ];
    let items = discover_items(entries, &ignored);
    let names: Vec<&str> = items.iter().map(|i| i.name.as_str()).collect();
    assert_eq!(names, vec![".zshrc", "nvim", "settings.toml", "random.txt"]);
    let scores: Vec<u32> = items.iter().map(|i| i.confidence).collect();
    assert_eq!(scores, vec![200, 150, 80, 10]);
}

#[test]
fn discover_keeps_listing_order_among_equal_scores() {
    let ignored = StrSet::new();
    let entries = vec![
        entry("b.toml", false, false),
        entry("a.toml", false, false),
        entry("c.toml", false, false),
    ];
    let items = discover_items(entries, &ignored);
    let names: Vec<&str> = items.iter().map(|i| i.name.as_str()).collect();
    assert_eq!(names, vec!["b.toml", "a.toml", "c.toml"]);
}

#[test]
fn scan_sources_combines_modifiers_threshold_and_dedup() {
    let ignored = StrSet::new();
    let sources = vec![
        ScanSource::new("/a".to_string(), 0),
        ScanSource::new("/missing".to_string(), 0),
        ScanSource::new("/b".to_string(), -50),
    ];
    let listing_a = vec![entry("settings.toml", false, false), entry("nvim", true, false)];
    let listing_b = vec![
        entry("nvim", true, false),
        entry(".zshrc", false, false),
        entry("x.toml", false, false),
    ];
    let items = scan_sources(&sources, vec![Some(listing_a), None, Some(listing_b)], &ignored);
    let got: Vec<(String, u32)> = items.iter().map(|i| (i.name.clone(), i.confidence)).collect();
    // /src/nvim seen first from /a (150); .zshrc 200-50=150; x.toml 80-50=30 dropped
    assert_eq!(
        got,
        vec![
            ("nvim".to_string(), 150),
            (".zshrc".to_string(), 150),
            ("settings.toml".to_string(), 80)
        ]
    );
}

#[test]
fn scan_sources_keeps_at_threshold_and_saturates() {
    let ignored = StrSet::new();
    let sources = vec![ScanSource::new("/s".to_string(), i32::MAX)];
    let items = scan_sources(&sources, vec![Some(vec![entry("readme.txt", false, false)])], &ignored);
    assert_eq!(items.len(), 1);
    assert_eq!(items[0].confidence, u32::MAX.min(10u32.saturating_add(i32::MAX as u32)));
    let sources = vec![ScanSource::new("/s".to_string(), 0)];
    let items = scan_sources(&sources, vec![Some(vec![entry("a.toml", false, false)])], &ignored);
    assert_eq!(items.len(), 1);
    assert_eq!(items[0].confidence, 80);
}

#[test]
fn default_scan_sources_includes_home_and_config() {
    let sources = default_scan_sources("/home/u");
    let paths: Vec<&str> = sources.iter().map(|s| s.path.as_str()).collect();
    assert_eq!(
        paths,
        vec![
            "/home/u/.config",
            "/home/u",
            "/home/u/Library/Application Support",
            "/home/u/.local/bin",
            "/home/u/.ssh"
        ]
    );
    let mods: Vec<i32> = sources.iter().map(|s| s.modifier).collect();
    assert_eq!(mods, vec![0, 0, -50, -50, -50]);
}

#[test]
fn discovered_item_fields() {
    let item = DiscoveredItem {
        path: "/x".to_string(),
        name: "x".to_string(),
        confidence: 5,
        item_type: ItemType::File,
    };
    assert_eq!(item.item_type, ItemType::File);
}

fn entry_in(dir: &str, name: &str, is_dir: bool) -> ListedEntry {
    ListedEntry { name: name.to_string(), path: format!("{}/{}", dir, name), is_dir, has_config_children: false }
}

fn names_of(items: &[DiscoveredItem]) -> Vec<&str> {
    items.iter().map(|r| r.name.as_str()).collect()
}

#[test]
fn scan_directory_discovers_items() {
    let results = discover_items(vec![entry("nvim", true, false), entry(".zshrc", false, false)], &StrSet::new());
    assert!(!results.is_empty());
    let names = names_of(&results);
    assert!(names.contains(&"nvim"));
    assert!(names.contains(&".zshrc"));
}

#[test]
fn scan_directory_respects_ignores() {
    let ignored = set_of(&["node_modules"]);
    let results = discover_items(vec![entry("node_modules", true, false), entry("nvim", true, false)], &ignored);
    let names = names_of(&results);
    assert!(!names.contains(&"node_modules"));
    assert!(names.contains(&"nvim"));
}

#[test]
fn scan_directory_skips_known_non_configs() {
    let listing = vec![
        entry("Documents", true, false),
        entry("Pictures", true, false),
        entry("caches", true, false),
        entry("nvim", true, false),
    ];
    let results = discover_items(listing, &StrSet::new());
    let names = names_of(&results);
    assert!(!names.contains(&"Documents"));
    assert!(!names.contains(&"Pictures"));
    assert!(!names.contains(&"caches"));
    assert!(names.contains(&"nvim"));
}

#[test]
fn scan_directory_sorted_by_confidence() {
    let listing = vec![entry(".zshrc", false, false), entry("random.txt", false, false), entry(".config", true, false)];
    let results = discover_items(listing, &StrSet::new());
    for window in results.windows(2) {
        assert!(window[0].confidence >= window[1].confidence);
    }
}

#[test]
fn scan_sources_combines_multiple_directories() {
    let sources = vec![ScanSource::new("/t/a".into(), 0), ScanSource::new("/t/b".into(), 0)];
    let listings = vec![Some(vec![entry_in("/t/a", "nvim", false)]), Some(vec![entry_in("/t/b", "vim", false)])];
    let results = scan_sources(&sources, listings, &StrSet::new());
    let names = names_of(&results);
    assert!(names.contains(&"nvim"));
    assert!(names.contains(&"vim"));
}

#[test]
fn scan_sources_deduplicates_by_path() {
    let sources = vec![ScanSource::new("/t/a".into(), 0), ScanSource::new("/t/a".into(), 0)];
    let listings = vec![Some(vec![entry_in("/t/a", "nvim", false)]), Some(vec![entry_in("/t/a", "nvim", false)])];
    let results = scan_sources(&sources, listings, &StrSet::new());
    let count = results.iter().filter(|r| r.name == "nvim").count();
    assert_eq!(count, 1);
}

#[test]
fn scan_sources_applies_positive_modifier() {
    let sources = vec![ScanSource::new("/t/src".into(), 50)];
    let listings = vec![Some(vec![entry_in("/t/src", "settings.toml", false)])];
    let results = scan_sources(&sources, listings, &StrSet::new());
    let item = results.iter().find(|r| r.name == "settings.toml").unwrap();
    assert_eq!(item.confidence, 130);
}

#[test]
fn scan_sources_applies_negative_modifier() {
    let sources = vec![ScanSource::new("/t/src".into(), -50)];
    let listings = vec![Some(vec![entry_in("/t/src", ".zshrc", false)])];
    let results = scan_sources(&sources, listings, &StrSet::new());
    let item = results.iter().find(|r| r.name == ".zshrc").unwrap();
    assert_eq!(item.confidence, 150);
}

#[test]
fn scan_sources_discards_below_threshold() {
    let sources = vec![ScanSource::new("/t/src".into(), 0)];
    let listings = vec![Some(vec![entry_in("/t/src", "readme.txt", false)])];
    let results = scan_sources(&sources, listings, &StrSet::new());
    assert!(!results.iter().any(|r| r.name == "readme.txt"));
}

#[test]
fn scan_sources_keeps_at_threshold() {
    let sources = vec![ScanSource::new("/t/src".into(), 0)];
    let listings = vec![Some(vec![entry_in("/t/src", "settings.toml", false)])];
    let results = scan_sources(&sources, listings, &StrSet::new());
    assert!(results.iter().any(|r| r.name == "settings.toml"));
    assert_eq!(results.iter().find(|r| r.name == "settings.toml").unwrap().confidence, 80);
}

#[test]
fn scan_sources_penalized_items_above_threshold_are_kept() {
    let sources = vec![ScanSource::new("/t/src".into(), -50)];
    let listings = vec![Some(vec![entry_in("/t/src", "nvim", true)])];
    let results = scan_sources(&sources, listings, &StrSet::new());
    assert!(results.iter().any(|r| r.name == "nvim"));
    assert_eq!(results.iter().find(|r| r.name == "nvim").unwrap().confidence, 100);
}

#[test]
fn default_scan_sources_penalizes_secondary() {
    let home = "/home/u";
    let sources = default_scan_sources(home);
    let local_bin = sources.iter().find(|s| s.path == "/home/u/.local/bin");
    let ssh = sources.iter().find(|s| s.path == "/home/u/.ssh");
    assert!(local_bin.is_some());
    assert_eq!(local_bin.unwrap().modifier, -50);
    assert!(ssh.is_some());
    assert_eq!(ssh.unwrap().modifier, -50);
}
