use roost::app::{Application, LocalAppConfig, Profile, SharedAppConfig};
use roost::collections::{StrMap, StrSet};
use roost::tui::main_view::dialogs::add_app::{derived_name, AddAppFocus, AddAppState};
use roost::tui::main_view::state::{
    app_count, app_cursor_down, app_cursor_up, apps_in_active_profile, clamp_app_cursor, files_view_of,
    has_primary_config, internal_primary_path, selected_app, selected_app_source,
};

fn config() -> SharedAppConfig {
    let mut apps = StrMap::new();
    let mut on = StrSet::new();
    on.insert("work".into());
    apps.insert("nvim".to_string(), Application { primary_config: Some("/h/.config/nvim/init.lua".into()), on_profiles: on, is_dir: true, ignore: vec![] });
    let mut a = StrSet::new();
    a.insert("zsh".into());
    a.insert("nvim".into());
    let mut sources = StrMap::new();
    sources.insert("nvim".to_string(), "default".to_string());
    let mut profiles = StrMap::new();
    profiles.insert("work".to_string(), Profile { apps: a, app_sources: sources });
    SharedAppConfig { remote: None, profiles, apps, ignored: StrSet::new() }
}

#[test]
fn apps_panel_queries() {
    let cfg = config();
    assert_eq!(app_count(&cfg, "work"), 2);
    assert_eq!(app_count(&cfg, "none"), 0);
    assert_eq!(apps_in_active_profile(&cfg, "work"), vec!["nvim".to_string(), "zsh".to_string()]);
    assert_eq!(selected_app(&cfg, "work", 1).as_deref(), Some("zsh"));
    assert_eq!(selected_app(&cfg, "work", 2), None);
    assert_eq!(selected_app_source(&cfg, "work", 0).as_deref(), Some("default"));
    assert_eq!(selected_app_source(&cfg, "work", 1), None);
    assert!(has_primary_config(&cfg, "nvim"));
    assert!(!has_primary_config(&cfg, "zsh"));
}

#[test]
fn apps_cursor_moves() {
    assert_eq!(app_cursor_down(0, 2), 1);
    assert_eq!(app_cursor_down(1, 2), 1);
    assert_eq!(app_cursor_down(0, 0), 0);
    assert_eq!(app_cursor_up(0), 0);
    assert_eq!(app_cursor_up(3), 2);
    assert_eq!(clamp_app_cursor(5, 3), 2);
    assert_eq!(clamp_app_cursor(5, 0), 0);
}

#[test]
fn primary_path_inside_roost() {
    assert_eq!(
        internal_primary_path("/h/.config/nvim/init.lua", Some("/h/.config/nvim"), "/r/work/nvim"),
        "/r/work/nvim/init.lua"
    );
    assert_eq!(internal_primary_path("/etc/x", Some("/h/.config/nvim"), "/r/work/nvim"), "/etc/x");
    assert_eq!(internal_primary_path("/etc/x", None, "/r/work/nvim"), "/etc/x");
}

#[test]
fn add_app_names() {
    assert_eq!(derived_name(".zshrc").as_deref(), Some("zshrc"));
    assert_eq!(derived_name(".").as_deref(), Some("."));
    assert_eq!(derived_name("nvim").as_deref(), Some("nvim"));
    assert_eq!(derived_name(""), None);
    let mut s = AddAppState::new();
    assert_eq!(s.effective_name(Some(".gitconfig")).as_deref(), Some("gitconfig"));
    s.push_char(' ');
    s.push_char('x');
    assert_eq!(s.effective_name(Some(".gitconfig")).as_deref(), Some("x"));
    s.backspace();
    assert_eq!(s.effective_name(None), None);
    s.toggle_focus();
    assert_eq!(s.focus, AddAppFocus::NameInput);
}

#[test]
fn focus_toggles_back() {
    let f = roost::tui::main_view::state::Focus::AppsPanel;
    assert_eq!(f.toggle(), roost::tui::main_view::state::Focus::FilesPanel);
    assert_eq!(f.toggle().toggle(), f);
}

#[test]
fn files_panel_opens_at_the_primary_config() {
    let mut cfg = config();
    let mut nvim = cfg.apps.remove("nvim").unwrap();
    nvim.primary_config = Some("/h/.config/nvim/lua/plugins/init.lua".into());
    cfg.apps.insert("nvim".to_string(), nvim);
    let mut link_paths = StrMap::new();
    link_paths.insert("nvim".to_string(), "/h/.config/nvim".to_string());
    let local = LocalAppConfig {
        active_profile: "work".into(),
        os_info: roost::os_detect::OsInfo { family: "unix".into(), name: "arch".into(), version: None, arch: "x86_64".into() },
        link_paths,
    };
    // nvim is linked from the "default" profile, so its files live there
    let (dir, trail) = files_view_of(&cfg, &local, "/r", 0).unwrap();
    assert_eq!(dir, "/r/default/nvim");
    assert_eq!(trail, vec!["lua".to_string(), "plugins".to_string()]);
    let (dir, trail) = files_view_of(&cfg, &local, "/r", 1).unwrap();
    assert_eq!(dir, "/r/work/zsh");
    assert!(trail.is_empty());
    assert!(files_view_of(&cfg, &local, "/r", 2).is_none());
}
