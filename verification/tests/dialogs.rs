use roost::tui::confirm::{ConfirmAction, ConfirmDialog, DialogColor};
use roost::tui::main_view::dialogs::{
    keybinds, scroll_window, AppLinkAction, AppLinkState, AppLinkStep, DiffViewState, HelpState,
    IgnoreMode, IgnoreState, ProfileMode, ProfileState, UndoState,
};
use roost::tui::main_view::state::Focus;
use roost::tui::state::{MillerState, Tab};
use roost::scanner::ListedEntry;

#[test]
fn confirm_dialog_lifecycle() {
    let mut dialog = ConfirmDialog::destructive("Test".to_string(), "Are you sure?".to_string());
    assert!(dialog.is_active());
    assert_eq!(dialog.take_result(), None);

    dialog.confirm();
    assert!(!dialog.is_active());
    assert_eq!(dialog.take_result(), Some(true));
    assert_eq!(dialog.take_result(), None);
}

#[test]
fn cancel_dialog() {
    let mut dialog = ConfirmDialog::affirmative("Test".to_string(), "Proceed?".to_string());
    dialog.cancel();
    assert_eq!(dialog.take_result(), Some(false));
}

#[test]
fn dialog_kinds_set_color_and_action() {
    let d = ConfirmDialog::destructive("a".into(), "b".into());
    assert_eq!(d.border_color, DialogColor::Red);
    assert_eq!(d.action, ConfirmAction::Discard);
    let a = ConfirmDialog::affirmative("a".into(), "b".into());
    assert_eq!(a.border_color, DialogColor::Yellow);
    assert_eq!(a.action, ConfirmAction::Confirm);
}

#[test]
fn modes_cycle() {
    assert_eq!(IgnoreMode::Add.next(), IgnoreMode::Remove);
    assert_eq!(IgnoreMode::Add.next().next(), IgnoreMode::Add);
    assert_eq!(ProfileMode::Switch.next(), ProfileMode::Create);
    assert_eq!(ProfileMode::Switch.next().next().next(), ProfileMode::Switch);
    assert_eq!(Focus::AppsPanel.toggle(), Focus::FilesPanel);
    assert_eq!(Focus::AppsPanel.toggle().toggle(), Focus::AppsPanel);
}

#[test]
fn scroll_window_follows_cursor() {
    assert_eq!(scroll_window(0, 5, 0), (0, 0));
    assert_eq!(scroll_window(2, 5, 10), (0, 5));
    assert_eq!(scroll_window(7, 5, 10), (3, 8));
    assert_eq!(scroll_window(9, 5, 10), (5, 10));
    let mut h = HelpState::new();
    h.move_down(3);
    h.move_down(3);
    h.move_down(3);
    assert_eq!(h.cursor, 2);
    h.move_up();
    assert_eq!(h.cursor, 1);
    assert_eq!(h.scroll_for_visible(1, 3), (1, 2));
    assert_eq!(keybinds().len(), 21);
    assert_eq!(keybinds()[0].key, "j / k");
}

#[test]
fn dialog_states_start_clean() {
    let mut p = ProfileState::new();
    assert!(p.copy_current);
    p.move_down(4);
    p.cycle_mode();
    assert_eq!(p.mode, ProfileMode::Create);
    assert_eq!(p.cursor, 0);
    let mut i = IgnoreState::new();
    i.cycle_mode();
    assert_eq!(i.mode, IgnoreMode::Remove);
    assert_eq!(UndoState::new("msg".into()).message, "msg");
    let mut l = AppLinkState::new(AppLinkAction::Copy);
    l.advance_step();
    assert_eq!(l.step, AppLinkStep::ConfirmCopy);
    let mut l2 = AppLinkState::new(AppLinkAction::Import);
    l2.advance_step();
    assert_eq!(l2.step, AppLinkStep::PickApp);
    l2.advance_step();
    assert_eq!(l2.step, AppLinkStep::PickProfile);
}

#[test]
fn diff_view_scrolls_within_lines() {
    let mut d = DiffViewState::new("a\nb\nc\n");
    assert_eq!(d.lines, vec!["a".to_string(), "b".to_string(), "c".to_string()]);
    d.scroll_down(2);
    assert_eq!(d.scroll, 1);
    d.scroll_down(2);
    assert_eq!(d.scroll, 1);
    d.scroll_up();
    d.scroll_up();
    assert_eq!(d.scroll, 0);
}

fn entry(name: &str, is_dir: bool) -> ListedEntry {
    ListedEntry { name: name.into(), path: format!("/h/{}", name), is_dir, has_config_children: false }
}

#[test]
fn tabs_and_miller_columns() {
    assert_eq!(Tab::Browse.next(2), Tab::Source(0));
    assert_eq!(Tab::Source(0).prev(2), Tab::Browse);
    assert_eq!(Tab::Source(1).next(2), Tab::Browse);
    let mut m = MillerState::new("/h".to_string(), vec![entry(".config", true), entry(".zshrc", false)]);
    m.move_down();
    m.move_down();
    assert_eq!(m.current_cursor(), 1);
    m.move_up();
    assert_eq!(m.current_entry().unwrap().name, ".config");
    m.move_right(entry(".config", true), vec![entry("nvim", true)]);
    assert_eq!(m.current_dir(), "/h/.config");
    assert_eq!(m.parent_cursor(), Some(0));
    m.move_left();
    m.move_left();
    assert_eq!(m.current_dir(), "/h");
    assert!(m.parent_listing().is_none());
}

#[test]
fn empty_git_log_shows_nothing_for_any_cursor() {
    let g = roost::tui::main_view::dialogs::GitLogState { commits: Vec::new(), cursor: usize::MAX, scroll: 0 };
    assert_eq!(g.scroll_for_visible(0), (0, 0));
    assert_eq!(g.scroll_for_visible(5), (0, 0));
}
