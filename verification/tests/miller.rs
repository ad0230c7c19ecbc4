//! The browser columns, with each directory given as the entries it lists.
use roost::app_selector::{SelectorReply, SelectorState};
use roost::scanner::{order_for_browsing, ListedEntry};
use roost::tui::main_view::keys::Key;
use roost::tui::state::MillerState;

const ROOT: &str = "/tmp/dir";

fn file(name: &str) -> ListedEntry {
    ListedEntry { name: name.into(), path: format!("{}/{}", ROOT, name), is_dir: false, has_config_children: false }
}

fn dir(name: &str) -> ListedEntry {
    ListedEntry { name: name.into(), path: format!("{}/{}", ROOT, name), is_dir: true, has_config_children: false }
}

fn columns(entries: Vec<ListedEntry>) -> MillerState<ListedEntry> {
    MillerState::new(ROOT.into(), order_for_browsing(entries))
}

fn cursor_path(mc: &MillerState<ListedEntry>) -> String {
    mc.current_entry().expect("an entry under the cursor").path.clone()
}

/// The browser tab of a selector over the directory `entries`.
fn browser(entries: Vec<ListedEntry>) -> SelectorState {
    let mut st = SelectorState::new(Vec::new(), ROOT.into(), order_for_browsing(entries), false);
    st.key(Key::Tab);
    st
}

/// What navigating down does: opens the directory under the cursor with `listing`.
fn navigate_down(st: &mut SelectorState, listing: Vec<ListedEntry>) {
    if let SelectorReply::OpenDir(e) = st.key(Key::Right) {
        st.open_dir(e, order_for_browsing(listing));
    }
}

#[test]
fn load_reads_directory() {
    let mc = columns(vec![file("alpha.txt"), dir("subdir"), file("beta.txt")]);
    assert!(!mc.current_listing().is_empty());
    assert_eq!(mc.current_cursor(), 0);
    let names: Vec<&str> = mc.current_listing().iter().map(|e| e.name.as_str()).collect();
    assert_eq!(names, vec!["subdir", "alpha.txt", "beta.txt"]);
}

#[test]
fn load_empty_directory() {
    let mc = columns(vec![]);
    assert!(mc.current_listing().is_empty());
    assert_eq!(mc.current_cursor(), 0);
}

#[test]
fn move_up_clamps_at_zero() {
    let mut mc = columns(vec![file("b.txt"), file("a.txt")]);
    mc.move_up();
    assert_eq!(cursor_path(&mc), format!("{}/a.txt", ROOT));
}

#[test]
fn move_down_advances_and_clamps() {
    let mut mc = columns((0..6).map(|i| file(&format!("file{i}.txt"))).collect());
    mc.move_down();
    assert_eq!(cursor_path(&mc), format!("{}/file1.txt", ROOT));
    mc.move_down();
    assert_eq!(cursor_path(&mc), format!("{}/file2.txt", ROOT));
    for _ in 0..5 {
        mc.move_down();
    }
    assert_eq!(cursor_path(&mc), format!("{}/file5.txt", ROOT));
}

#[test]
fn toggle_select_adds_and_removes() {
    let mut st = browser(vec![file("item.txt")]);
    st.key(Key::Char(' '));
    assert!(st.browsed.iter().any(|b| b.path == format!("{}/item.txt", ROOT)));
    st.key(Key::Char(' '));
    assert!(!st.browsed.iter().any(|b| b.path == format!("{}/item.txt", ROOT)));
}

#[test]
fn navigate_down_pushes_column_for_dir() {
    let mut st = browser(vec![dir("inner"), file("top.txt")]);
    assert_eq!(st.browser.current_dir(), ROOT);
    navigate_down(&mut st, vec![file("deep.txt")]);
    assert_eq!(st.browser.current_dir(), format!("{}/inner", ROOT));
}

#[test]
fn navigate_down_ignores_files() {
    let mut st = browser(vec![file("plain.txt")]);
    assert_eq!(st.browser.current_dir(), ROOT);
    navigate_down(&mut st, vec![]);
    assert_eq!(st.browser.current_dir(), ROOT);
}

#[test]
fn navigate_up_pops_but_not_below_one() {
    let mut st = browser(vec![dir("sub"), file("a.txt")]);
    navigate_down(&mut st, vec![]);
    assert_eq!(st.browser.current_dir(), format!("{}/sub", ROOT));
    st.key(Key::Left);
    assert_eq!(st.browser.current_dir(), ROOT);
    st.key(Key::Left);
    assert_eq!(st.browser.current_dir(), ROOT);
}

#[test]
fn current_path_returns_last_column_path() {
    let mut st = browser(vec![dir("child")]);
    assert_eq!(st.browser.current_dir(), ROOT);
    navigate_down(&mut st, vec![]);
    assert_eq!(st.browser.current_dir(), format!("{}/child", ROOT));
}

#[test]
fn current_cursor_path_returns_entry_path() {
    let mut mc = columns(vec![file("bbb.txt"), file("aaa.txt")]);
    assert_eq!(cursor_path(&mc), format!("{}/aaa.txt", ROOT));
    mc.move_down();
    assert_eq!(cursor_path(&mc), format!("{}/bbb.txt", ROOT));
}

#[test]
fn move_down_brings_a_cursor_past_the_end_back_to_the_last_entry() {
    let mut mc = columns(vec![file("a.txt"), file("b.txt")]);
    if let Some(c) = mc.cursors.last_mut() {
        *c = 7;
    }
    mc.move_down();
    assert_eq!(mc.current_cursor(), 1);
    mc.move_down();
    assert_eq!(mc.current_cursor(), 1);
}

#[test]
fn cursors_stay_inside_their_listings() {
    let mut mc = columns(vec![dir("d"), file("a.txt")]);
    for _ in 0..4 {
        mc.move_down();
    }
    assert_eq!(mc.current_cursor(), 1);
    mc.move_right(dir("d"), vec![file("x")]);
    mc.move_down();
    assert_eq!(mc.current_cursor(), 0);
    mc.move_left();
    assert!(mc.current_cursor() < mc.current_listing().len());
}
