use roost::app::{Application, LocalAppConfig, Profile, SharedAppConfig};
use roost::collections::{StrMap, StrSet};
use roost::git::CommitInfo;
use roost::os_detect::OsInfo;
use roost::tui::confirm::{ConfirmAction, ConfirmDialog, DialogColor};
use roost::tui::main_view::dialogs::{
    AppLinkAction, AppLinkState, AppLinkStep, DiffViewState, GitLogState, HelpState, IgnoreMode, IgnoreState,
    ProfileMode, ProfileState,
};
use roost::tui::main_view::event::Action;
use roost::tui::main_view::keys::{
    app_link_key, base_key, confirm_key, diff_view_key, git_log_key, handle_key, help_key, ignore_key,
    profile_key, undo_key, undo_prompt, FilesCursor, Key, Overlays, PanelCommand, Panels,
};
use roost::tui::main_view::state::{Focus, SearchTarget};

fn shared() -> SharedAppConfig {
    let mut on = StrSet::new();
    on.insert("work".into());
    let mut apps = StrMap::new();
    apps.insert(
        "nvim".to_string(),
        Application { primary_config: Some("/h/.config/nvim/init.lua".into()), on_profiles: on.duplicate(), is_dir: true, ignore: vec![] },
    );
    apps.insert("zsh".to_string(), Application { primary_config: None, on_profiles: on, is_dir: false, ignore: vec![] });
    let mut work = StrSet::new();
    work.insert("zsh".into());
    work.insert("nvim".into());
    let mut home = StrSet::new();
    home.insert("git".into());
    let mut profiles = StrMap::new();
    profiles.insert("work".to_string(), Profile { apps: work, app_sources: StrMap::new() });
    profiles.insert("home".to_string(), Profile { apps: home, app_sources: StrMap::new() });
    let mut ignored = StrSet::new();
    ignored.insert("*.log".into());
    ignored.insert(".git".into());
    SharedAppConfig { remote: None, profiles, apps, ignored }
}

fn local() -> LocalAppConfig {
    let mut link_paths = StrMap::new();
    link_paths.insert("nvim".to_string(), "/h/.config/nvim".to_string());
    LocalAppConfig {
        active_profile: "work".into(),
        os_info: OsInfo { family: "unix".into(), name: "arch".into(), version: None, arch: "x86_64".into() },
        link_paths,
    }
}

fn files(path: Option<&str>, is_dir: bool, at_root: bool) -> FilesCursor {
    FilesCursor { at_root, is_dir, path: path.map(|p| p.to_string()) }
}

fn panels(focus: Focus, cursor: usize) -> Panels {
    Panels { focus, app_cursor: cursor, status_message: Some("old".into()) }
}

fn empty_overlays() -> Overlays {
    Overlays {
        panels: panels(Focus::AppsPanel, 0),
        confirm: None,
        search: None,
        help: None,
        profile: None,
        ignore: None,
        git_log: None,
        undo: None,
        app_link: None,
        diff: None,
    }
}

fn commit(hash: &str, message: &str) -> CommitInfo {
    CommitInfo { hash: hash.into(), message: message.into(), timestamp: "now".into() }
}

#[test]
fn profile_dialog_switches_creates_and_refuses_active_delete() {
    let cfg = shared();
    let mut p = ProfileState::new();
    p.move_down(2);
    let r = profile_key(&mut p, Key::Enter, &cfg, "work");
    assert!(r.close);
    assert_eq!(r.action, Action::SwitchProfile("work".into()));

    let mut p = ProfileState::new();
    p.cycle_mode();
    assert_eq!(p.mode, ProfileMode::Create);
    for c in "  new ".chars() {
        profile_key(&mut p, Key::Char(c), &cfg, "work");
    }
    // a space toggles the copy flag instead of being typed
    assert!(!p.copy_current);
    assert_eq!(p.input, "new");
    // `k` moves the cursor instead of being typed
    profile_key(&mut p, Key::Char('k'), &cfg, "work");
    assert_eq!(p.input, "new");
    profile_key(&mut p, Key::Backspace, &cfg, "work");
    assert_eq!(p.input, "ne");
    let r = profile_key(&mut p, Key::Enter, &cfg, "work");
    assert_eq!(r.action, Action::CreateProfile { name: "ne".into(), copy_current: false });

    let mut p = ProfileState::new();
    p.cycle_mode();
    p.cycle_mode();
    p.move_down(2);
    let r = profile_key(&mut p, Key::Enter, &cfg, "work");
    assert!(!r.close);
    assert_eq!(r.action, Action::SetStatus("Cannot delete the active profile".into()));
    p.move_up();
    let r = profile_key(&mut p, Key::Enter, &cfg, "work");
    assert_eq!(r.action, Action::DeleteProfile("home".into()));

    let r = profile_key(&mut p, Key::Esc, &cfg, "work");
    assert!(r.close);
    assert_eq!(r.action, Action::Nop);
}

#[test]
fn ignore_dialog_adds_and_removes() {
    let cfg = shared();
    let mut ig = IgnoreState::new();
    for c in "*.tmp  ".chars() {
        ignore_key(&mut ig, Key::Char(c), &cfg);
    }
    let r = ignore_key(&mut ig, Key::Enter, &cfg);
    assert_eq!(r.action, Action::AddIgnore("*.tmp".into()));

    let mut ig = IgnoreState::new();
    ignore_key(&mut ig, Key::Tab, &cfg);
    assert_eq!(ig.mode, IgnoreMode::Remove);
    ignore_key(&mut ig, Key::Down, &cfg);
    ignore_key(&mut ig, Key::Down, &cfg);
    assert_eq!(ig.cursor, 1);
    let r = ignore_key(&mut ig, Key::Enter, &cfg);
    assert_eq!(r.action, Action::RemoveIgnore(".git".into()));

    let mut ig = IgnoreState::new();
    let r = ignore_key(&mut ig, Key::Enter, &cfg);
    assert!(!r.close);
    assert_eq!(r.action, Action::Nop);
}

#[test]
fn app_link_dialog_imports_and_copies() {
    let cfg = shared();
    let mut a = AppLinkState::new(AppLinkAction::Import);
    let r = app_link_key(&mut a, Key::Enter, &cfg, "work", 0);
    assert!(!r.close);
    assert_eq!(a.selected_profile.as_deref(), Some("home"));
    assert_eq!(a.step, AppLinkStep::PickApp);
    let r = app_link_key(&mut a, Key::Enter, &cfg, "work", 0);
    assert!(r.close);
    assert_eq!(r.action, Action::ImportApp { app: "git".into(), source_profile: "home".into() });

    let mut a = AppLinkState::new(AppLinkAction::Copy);
    app_link_key(&mut a, Key::Char('j'), &cfg, "work", 1);
    app_link_key(&mut a, Key::Enter, &cfg, "work", 1);
    assert_eq!(a.step, AppLinkStep::ConfirmCopy);
    let r = app_link_key(&mut a, Key::Enter, &cfg, "work", 1);
    assert_eq!(r.action, Action::CopyApp { app: "zsh".into(), target_profile: "work".into() });
}

#[test]
fn rollback_goes_through_confirmation() {
    let mut log = GitLogState::new(vec![
        commit("0123456789abcdef", "save: two"),
        commit("fedcba9876543210", "save: one"),
    ]);
    git_log_key(&mut log, Key::Down);
    let r = git_log_key(&mut log, Key::Char('r'));
    assert!(r.close);
    assert_eq!(r.action, Action::SetStatus("rollback_pending:fedcba9876543210".into()));
    let mut dialog = r.confirm.expect("a confirmation opens");
    assert_eq!(dialog.title, "Rollback");
    assert_eq!(
        dialog.message,
        "Rollback to fedcba9?\n\nWARNING: This is a destructive hard reset and cannot be easily undone."
    );
    assert_eq!(dialog.border_color, DialogColor::Red);
    let mut status = Some("rollback_pending:fedcba9876543210".to_string());
    let r = confirm_key(&mut dialog, Key::Char('y'), &mut status);
    assert!(r.close);
    assert_eq!(r.action, Action::Rollback("fedcba9876543210".into()));
    assert_eq!(status, None);
}

#[test]
fn confirm_dialog_answers() {
    let mut d = ConfirmDialog::destructive("Quit".into(), "sure?".into());
    let mut status = Some("rollback_pending:abc".to_string());
    let r = confirm_key(&mut d, Key::Char('x'), &mut status);
    assert!(!r.close);
    let r = confirm_key(&mut d, Key::Esc, &mut status);
    assert!(r.close);
    assert_eq!(r.action, Action::Nop);
    assert_eq!(status, None);

    let mut d = ConfirmDialog::affirmative("Set Primary".into(), "?".into());
    let mut status = Some("Saved.".to_string());
    let r = confirm_key(&mut d, Key::Char('Y'), &mut status);
    assert_eq!(r.action, Action::Quit);
    assert_eq!(status.as_deref(), Some("Saved."));
    assert_eq!(d.action, ConfirmAction::Confirm);
    assert_eq!(d.confirmed, None);
}

#[test]
fn small_dialogs() {
    let mut h = HelpState::new();
    assert!(!help_key(&mut h, Key::Char('j')));
    assert_eq!(h.cursor, 1);
    assert!(help_key(&mut h, Key::Char('q')));

    assert_eq!(undo_key(Key::Char('y')).action, Action::Undo);
    assert!(undo_key(Key::Char('n')).close);
    assert!(!undo_key(Key::Char('x')).close);

    let mut d = DiffViewState::new("a\nb\nc");
    diff_view_key(&mut d, Key::Down);
    assert_eq!(d.scroll, 1);
    let r = diff_view_key(&mut d, Key::Char('e'));
    assert!(r.close);
    assert_eq!(r.action, Action::OpenPager("git_diff".into()));

    assert_eq!(undo_prompt(&commit("0123456789", "save: x")), "Undo last commit?\n0123456  save: x");
}

#[test]
fn panel_keys() {
    let cfg = shared();
    let loc = local();
    let none = files(None, false, true);

    let mut p = panels(Focus::AppsPanel, 0);
    let r = base_key(&mut p, Key::Char('o'), &cfg, &loc, false, &none);
    assert_eq!(p.status_message, None);
    assert_eq!(r.action, Action::OpenEditor("/h/.config/nvim".into()));

    let mut p = panels(Focus::AppsPanel, 1);
    let r = base_key(&mut p, Key::Char('o'), &cfg, &loc, false, &none);
    assert_eq!(r.action, Action::SetStatus("No primary config for this app".into()));

    let r = base_key(&mut p, Key::Char('x'), &cfg, &loc, false, &none);
    match r.command {
        PanelCommand::OpenConfirm(d) => {
            assert_eq!(d.title, "Remove App");
            assert_eq!(d.message, "Remove 'zsh' from roost?");
        },
        _ => panic!("expected a confirmation"),
    }

    let r = base_key(&mut p, Key::Char('q'), &cfg, &loc, false, &none);
    assert_eq!(r.action, Action::Quit);
    let r = base_key(&mut p, Key::Esc, &cfg, &loc, true, &none);
    assert!(matches!(r.command, PanelCommand::OpenConfirm(_)));
    assert_eq!(r.action, Action::Nop);

    let mut p = panels(Focus::AppsPanel, 0);
    base_key(&mut p, Key::Char('l'), &cfg, &loc, false, &none);
    assert_eq!(p.focus, Focus::FilesPanel);
    let file = files(Some("/r/work/nvim/init.lua"), false, false);
    let r = base_key(&mut p, Key::Char('p'), &cfg, &loc, false, &file);
    match r.command {
        PanelCommand::OpenConfirm(d) => {
            assert_eq!(d.message, "Set '/r/work/nvim/init.lua' as primary config for 'nvim'?");
            assert_eq!(d.action, ConfirmAction::Confirm);
        },
        _ => panic!("expected a confirmation"),
    }
    let r = base_key(&mut p, Key::Enter, &cfg, &loc, false, &file);
    assert_eq!(r.action, Action::OpenEditor("/r/work/nvim/init.lua".into()));
    let dir = files(Some("/r/work/nvim/lua"), true, false);
    assert!(matches!(base_key(&mut p, Key::Char('l'), &cfg, &loc, false, &dir).command, PanelCommand::FilesEnter));
    assert!(matches!(base_key(&mut p, Key::Char('h'), &cfg, &loc, false, &dir).command, PanelCommand::FilesParent));
    base_key(&mut p, Key::Char('h'), &cfg, &loc, false, &none);
    assert_eq!(p.focus, Focus::AppsPanel);
    assert!(matches!(base_key(&mut p, Key::Char('/'), &cfg, &loc, false, &none).command, PanelCommand::OpenSearch(SearchTarget::Apps)));
    assert_eq!(base_key(&mut p, Key::Char('s'), &cfg, &loc, false, &none).action, Action::Sync);
}

#[test]
fn keys_go_to_the_top_layer() {
    let cfg = shared();
    let loc = local();
    let none = files(None, false, true);
    let mut ov = empty_overlays();
    let out = handle_key(&mut ov, Key::Char('P'), &cfg, &loc, false, &none, &[]);
    assert_eq!(out.action, Action::Nop);
    assert!(ov.profile.is_some());
    // the profile dialog now takes the keys: Enter switches to the first profile
    let out = handle_key(&mut ov, Key::Enter, &cfg, &loc, false, &none, &[]);
    assert_eq!(out.action, Action::SwitchProfile("home".into()));
    assert!(ov.profile.is_none());

    ov.help = Some(HelpState::new());
    ov.confirm = Some(ConfirmDialog::destructive("Quit".into(), "?".into()));
    let out = handle_key(&mut ov, Key::Char('y'), &cfg, &loc, false, &none, &[]);
    assert_eq!(out.action, Action::Quit);
    assert!(ov.confirm.is_none());
    assert!(ov.help.is_some());
    let out = handle_key(&mut ov, Key::Esc, &cfg, &loc, false, &none, &[]);
    assert_eq!(out.action, Action::Nop);
    assert!(ov.help.is_none());

    let out = handle_key(&mut ov, Key::Char('g'), &cfg, &loc, false, &none, &[]);
    assert!(matches!(out.command, PanelCommand::ShowGitLog));
}

#[test]
fn typing_in_search_selects_an_existing_row() {
    let mut s = roost::tui::main_view::state::SearchState {
        engine: roost::tui::search::FuzzyEngine::new(),
        target: SearchTarget::Apps,
        visible: true,
    };
    let items = ["nvim", "zsh", "tmux"];
    let r = roost::tui::main_view::keys::search_key(&mut s, Key::Char('z'), &items);
    assert!(!r.close);
    assert_eq!(r.select, Some(1));
    let r = roost::tui::main_view::keys::search_key(&mut s, Key::Backspace, &items);
    assert_eq!(r.select, Some(0));
    let r = roost::tui::main_view::keys::search_key(&mut s, Key::Enter, &items);
    assert!(r.close);
    assert_eq!(r.select, Some(0));
}
