use roost::app_selector::{initial_selection, selected_items, BrowsedPath, TuiResult};
use roost::scanner::{DiscoveredItem, ItemType};

fn item(name: &str, confidence: u32) -> DiscoveredItem {
    DiscoveredItem { path: format!("/h/{}", name), name: name.into(), confidence, item_type: ItemType::Dir }
}

#[test]
fn initial_selection_ranks_and_autoselects() {
    let (items, selected) = initial_selection(vec![item("a", 80), item("b", 200), item("c", 150), item("d", 150)], true);
    let names: Vec<&str> = items.iter().map(|i| i.name.as_str()).collect();
    assert_eq!(names, vec!["b", "c", "d", "a"]);
    assert_eq!(selected, vec![true, true, true, false]);
    let (_, none) = initial_selection(vec![item("b", 200)], false);
    assert_eq!(none, vec![false]);
}

#[test]
fn selected_items_dedup_by_path() {
    let items = vec![item("nvim", 150), item("zsh", 90)];
    let browsed = vec![
        BrowsedPath { path: "/h/nvim".into(), name: "nvim".into(), is_dir: true },
        BrowsedPath { path: "/h/.tmux.conf".into(), name: ".tmux.conf".into(), is_dir: false },
    ];
    let out = selected_items(&items, &[true, false], &browsed);
    assert_eq!(out.len(), 2);
    assert_eq!(out[0].confidence, 150);
    assert_eq!(out[1].name, ".tmux.conf");
    assert_eq!(out[1].confidence, 0);
    assert_eq!(out[1].item_type, ItemType::File);
    assert!(matches!(TuiResult::Selected(out), TuiResult::Selected(v) if v.len() == 2));
}

use roost::app_selector::{confidence_level, help_bindings, ConfidenceLevel, SelectorReply, SelectorState, SelectorTab};
use roost::scanner::{order_for_browsing, ListedEntry};
use roost::tui::confirm::{ConfirmAction, DialogColor};
use roost::tui::main_view::keys::Key;

fn entry(name: &str, is_dir: bool) -> ListedEntry {
    ListedEntry { name: name.into(), path: format!("/h/{}", name), is_dir, has_config_children: false }
}

fn selector(auto: bool) -> SelectorState {
    let items = vec![item("nvim", 200), item("zsh", 90), item("tmux", 160)];
    let listing = vec![entry("nvim", true), entry("notes", true), entry(".bashrc", false)];
    SelectorState::new(items, "/h".into(), listing, auto)
}

fn press(st: &mut SelectorState, keys: &[Key]) -> SelectorReply {
    let mut last = SelectorReply::Continue;
    for k in keys {
        last = st.key(*k);
    }
    last
}

#[test]
fn selector_starts_with_confident_items_ticked() {
    let st = selector(true);
    let names: Vec<&str> = st.scan_items.iter().map(|i| i.name.as_str()).collect();
    assert_eq!(names, vec!["nvim", "tmux", "zsh"]);
    assert_eq!(st.selected, vec![true, true, false]);
    let paths: Vec<&str> = st.browsed.iter().map(|b| b.path.as_str()).collect();
    assert_eq!(paths, vec!["/h/nvim", "/h/tmux"]);
    assert_eq!(st.tab, SelectorTab::ScanResults);
}

#[test]
fn selector_space_toggles_scan_item_and_its_path() {
    let mut st = selector(false);
    press(&mut st, &[Key::Char('j'), Key::Char(' ')]);
    assert_eq!(st.scan_cursor, 1);
    assert_eq!(st.selected, vec![false, true, false]);
    assert_eq!(st.browsed.len(), 1);
    assert_eq!(st.browsed[0].path, "/h/tmux");
    press(&mut st, &[Key::Char(' ')]);
    assert_eq!(st.selected, vec![false, false, false]);
    assert!(st.browsed.is_empty());
}

#[test]
fn selector_cursor_stops_at_the_ends() {
    let mut st = selector(false);
    press(&mut st, &[Key::Up, Key::Char('k')]);
    assert_eq!(st.scan_cursor, 0);
    press(&mut st, &[Key::Down, Key::Down, Key::Down, Key::Down]);
    assert_eq!(st.scan_cursor, 2);
}

#[test]
fn selector_enter_asks_to_ingest_and_yes_finishes() {
    let mut st = selector(true);
    press(&mut st, &[Key::Enter]);
    let d = st.confirm.as_ref().expect("dialog");
    assert_eq!(d.title, "Confirm");
    assert_eq!(d.message, "Ingest 2 selected apps and finish?");
    assert_eq!(d.action, ConfirmAction::Confirm);
    assert_eq!(d.border_color, DialogColor::Yellow);
    match press(&mut st, &[Key::Char('y')]) {
        SelectorReply::Finish(TuiResult::Selected(items)) => {
            let names: Vec<&str> = items.iter().map(|i| i.name.as_str()).collect();
            assert_eq!(names, vec!["nvim", "tmux"]);
        }
        _ => panic!("expected the selection"),
    }
}

#[test]
fn selector_enter_with_nothing_selected_asks_to_exit() {
    let mut st = selector(false);
    press(&mut st, &[Key::Enter]);
    assert_eq!(st.confirm.as_ref().unwrap().message, "No apps selected. Exit without selecting any?");
    press(&mut st, &[Key::Char('n')]);
    assert!(st.confirm.is_none());
    match press(&mut st, &[Key::Enter, Key::Char('y')]) {
        SelectorReply::Finish(TuiResult::Selected(items)) => assert!(items.is_empty()),
        _ => panic!("expected an empty selection"),
    }
}

#[test]
fn selector_escape_aborts_or_asks_to_discard() {
    let mut st = selector(false);
    assert!(matches!(press(&mut st, &[Key::Esc]), SelectorReply::Finish(TuiResult::Aborted)));
    let mut st = selector(false);
    press(&mut st, &[Key::Char(' '), Key::Char('q')]);
    let d = st.confirm.as_ref().unwrap();
    assert_eq!(d.title, "Discard");
    assert_eq!(d.message, "Discard 1 selected app and exit?");
    assert_eq!(d.border_color, DialogColor::Red);
    assert!(matches!(press(&mut st, &[Key::Char('y')]), SelectorReply::Finish(TuiResult::Aborted)));
}

#[test]
fn selector_other_keys_leave_the_dialog_open() {
    let mut st = selector(true);
    press(&mut st, &[Key::Enter, Key::Char('x')]);
    assert!(st.confirm.is_some());
    press(&mut st, &[Key::Esc]);
    assert!(st.confirm.is_none());
}

#[test]
fn selector_search_filters_and_moves_the_cursor() {
    let mut st = selector(false);
    press(&mut st, &[Key::Char('/')]);
    assert!(st.in_search);
    assert_eq!(st.search.match_count(), 3);
    press(&mut st, &[Key::Char('z')]);
    assert_eq!(st.search.query(), "z");
    assert_eq!(st.search.match_count(), 1);
    assert_eq!(st.scan_cursor, 2);
    press(&mut st, &[Key::Enter]);
    assert!(!st.in_search);
    assert_eq!(st.search.query(), "z");
    press(&mut st, &[Key::Char(' ')]);
    assert_eq!(st.selected, vec![false, false, true]);
}

#[test]
fn selector_backspace_to_empty_clears_the_search() {
    let mut st = selector(false);
    press(&mut st, &[Key::Char('j'), Key::Char('/'), Key::Char('t'), Key::Backspace]);
    assert_eq!(st.search.query(), "");
    assert_eq!(st.search.match_count(), 0);
    assert!(st.in_search);
    // Clearing returns to the cursor of the last search, which opened at the first row.
    assert_eq!(st.scan_cursor, 0);
}

#[test]
fn selector_tab_switches_and_clears_search() {
    let mut st = selector(false);
    press(&mut st, &[Key::Char('/'), Key::Char('n'), Key::Esc, Key::Tab]);
    assert_eq!(st.tab, SelectorTab::Browse);
    assert_eq!(st.search.query(), "");
    assert!(st.browse_filter.is_none());
    press(&mut st, &[Key::Tab]);
    assert_eq!(st.tab, SelectorTab::ScanResults);
}

#[test]
fn selector_browse_ticks_entries_and_opens_directories() {
    let mut st = selector(false);
    press(&mut st, &[Key::Tab, Key::Char('j'), Key::Char(' ')]);
    assert_eq!(st.browsed.len(), 1);
    assert_eq!(st.browsed[0].path, "/h/notes");
    assert!(st.browsed[0].is_dir);
    match press(&mut st, &[Key::Char('l')]) {
        SelectorReply::OpenDir(e) => {
            assert_eq!(e.path, "/h/notes");
            st.open_dir(e, vec![entry("todo.md", false)]);
        }
        _ => panic!("expected a directory to open"),
    }
    assert_eq!(st.browser.current_dir(), "/h/notes");
    press(&mut st, &[Key::Char(' ')]);
    assert_eq!(st.browsed.len(), 2);
    press(&mut st, &[Key::Char('h')]);
    assert_eq!(st.browser.current_dir(), "/h");
    match press(&mut st, &[Key::Down, Key::Char('l')]) {
        SelectorReply::Continue => {}
        _ => panic!("a file does not open"),
    }
    match press(&mut st, &[Key::Enter, Key::Char('y')]) {
        SelectorReply::Finish(TuiResult::Selected(items)) => {
            let paths: Vec<&str> = items.iter().map(|i| i.path.as_str()).collect();
            assert_eq!(paths, vec!["/h/notes", "/h/todo.md"]);
        }
        _ => panic!("expected the selection"),
    }
}

#[test]
fn selector_browse_search_narrows_the_listing() {
    let mut st = selector(false);
    press(&mut st, &[Key::Tab, Key::Char('/'), Key::Char('b')]);
    assert_eq!(st.browse_filter, Some(vec![2]));
    assert_eq!(st.filtered_cursor, 0);
    press(&mut st, &[Key::Enter, Key::Char(' ')]);
    assert_eq!(st.browsed.len(), 1);
    assert_eq!(st.browsed[0].path, "/h/.bashrc");
}

#[test]
fn selector_help_opens_scrolls_and_closes() {
    let mut st = selector(false);
    press(&mut st, &[Key::Char('?')]);
    assert!(st.help_visible);
    press(&mut st, &[Key::Down, Key::Char('j'), Key::Char('k')]);
    assert_eq!(st.help_scroll, 1);
    press(&mut st, &[Key::Char('s')]);
    assert_eq!(st.help_search.query(), "s");
    assert!(st.help_search.match_count() >= 1);
    press(&mut st, &[Key::Backspace]);
    assert_eq!(st.help_search.query(), "");
    press(&mut st, &[Key::Char('q')]);
    assert!(!st.help_visible);
    assert_eq!(help_bindings().len(), 7);
}

#[test]
fn selector_visible_range_keeps_the_cursor_in_view() {
    let mut st = selector(false);
    assert_eq!(st.visible_range(2), (0, 2));
    press(&mut st, &[Key::Down, Key::Down]);
    assert_eq!(st.visible_range(2), (1, 3));
    assert_eq!(st.visible_range(0), (2, 3));
}

#[test]
fn confidence_levels() {
    assert_eq!(confidence_level(150), ConfidenceLevel::High);
    assert_eq!(confidence_level(149), ConfidenceLevel::Medium);
    assert_eq!(confidence_level(100), ConfidenceLevel::Medium);
    assert_eq!(confidence_level(99), ConfidenceLevel::Low);
}

#[test]
fn browsing_order_puts_directories_first_then_names() {
    let ordered = order_for_browsing(vec![entry("b.txt", false), entry("zeta", true), entry("A.txt", false), entry("alpha", true)]);
    let names: Vec<&str> = ordered.iter().map(|e| e.name.as_str()).collect();
    assert_eq!(names, vec!["alpha", "zeta", "A.txt", "b.txt"]);
}
