//! State of the main view that does not depend on the screen: focus, search target and
//! the apps panel of the active profile.
use vstd::prelude::*;

use crate::app::{Application, LocalAppConfig, Profile, SharedAppConfig};
use crate::collections::map_get;
use crate::paths::{components, join, path_components, path_join, path_rest, strip_path_prefix};
use crate::tui::search::FuzzyEngine;

use super::dialogs::{scroll_window, window};

verus! {

/// Which panel currently receives keyboard input.
#[derive(Debug, Clone, Copy, PartialEq, Eq, Structural)]
pub enum Focus {
    AppsPanel,
    FilesPanel,
}

/// The other panel.
pub open spec fn toggled(f: Focus) -> Focus {
    match f {
        Focus::AppsPanel => Focus::FilesPanel,
        Focus::FilesPanel => Focus::AppsPanel,
    }
}

impl Focus {
    /// Toggle between the two panels.
    pub fn toggle(&self) -> (r: Self)
        ensures
            r == toggled(*self),
    {
        match self {
            Focus::AppsPanel => Focus::FilesPanel,
            Focus::FilesPanel => Focus::AppsPanel,
        }
    }
}

/// Toggling twice gives back the panel that had the focus, and toggling always moves it.
pub proof fn lemma_focus_toggle_twice(f: Focus)
    ensures
        toggled(toggled(f)) == f,
        toggled(f) != f,
{
}

/// What domain the current search operates on.
#[derive(Debug, Clone, Copy, PartialEq, Eq, Structural)]
pub enum SearchTarget {
    Apps,
    Files,
}

/// Active fuzzy-search overlay.
pub struct SearchState {
    pub engine: FuzzyEngine,
    pub target: SearchTarget,
    pub visible: bool,
}

/// The apps of profile `active`, in sorted order (none for an unknown profile).
pub open spec fn active_apps(profiles: Seq<(Seq<char>, Profile)>, active: Seq<char>) -> Seq<Seq<char>> {
    match map_get(profiles, active) {
        Some(p) => p.apps@,
        None => Seq::empty(),
    }
}

/// Number of apps assigned to profile `active`.
pub fn app_count(shared: &SharedAppConfig, active: &str) -> (r: usize)
    ensures
        r == active_apps(shared.profiles@, active@).len(),
{
    match shared.profiles.get(active) {
        Some(p) => p.apps.len(),
        None => 0,
    }
}

/// All app names of profile `active`, sorted.
pub fn apps_in_active_profile(shared: &SharedAppConfig, active: &str) -> (r: Vec<String>)
    ensures
        r@.len() == active_apps(shared.profiles@, active@).len(),
        forall|i: int| 0 <= i < r@.len() ==> #[trigger] r@[i]@ == active_apps(shared.profiles@, active@)[i],
{
    let mut out: Vec<String> = Vec::new();
    match shared.profiles.get(active) {
        None => {},
        Some(p) => {
            let mut i: usize = 0;
            while i < p.apps.len()
                invariant
                    i <= p.apps@.len(),
                    p.apps@ == active_apps(shared.profiles@, active@),
                    out@.len() == i,
                    forall|k: int| 0 <= k < i ==> #[trigger] out@[k]@ == p.apps@[k],
                decreases p.apps@.len() - i,
            {
                out.push(p.apps.at(i).clone());
                i = i + 1;
            }
        },
    }
    out
}

/// The app under `cursor` in the apps panel of profile `active`.
pub fn selected_app(shared: &SharedAppConfig, active: &str, cursor: usize) -> (r: Option<String>)
    ensures
        match r {
            Some(a) => cursor < active_apps(shared.profiles@, active@).len() && a@ == active_apps(
                shared.profiles@,
                active@,
            )[cursor as int],
            None => cursor >= active_apps(shared.profiles@, active@).len(),
        },
{
    match shared.profiles.get(active) {
        Some(p) => {
            if cursor < p.apps.len() {
                Some(p.apps.at(cursor).clone())
            } else {
                None
            }
        },
        None => None,
    }
}

/// Profile whose copy the selected app links to, when the selected app is linked from
/// another profile.
pub open spec fn selected_source(profiles: Seq<(Seq<char>, Profile)>, active: Seq<char>, cursor: int) -> Option<String> {
    match map_get(profiles, active) {
        Some(p) => if 0 <= cursor < p.apps@.len() {
            map_get(p.app_sources@, p.apps@[cursor])
        } else {
            None
        },
        None => None,
    }
}

/// If the selected app is linked from another profile, that profile's name.
pub fn selected_app_source(shared: &SharedAppConfig, active: &str, cursor: usize) -> (r: Option<String>)
    ensures
        r == selected_source(shared.profiles@, active@, cursor as int),
{
    match shared.profiles.get(active) {
        Some(p) => {
            if cursor < p.apps.len() {
                let app = p.apps.at(cursor);
                match p.app_sources.get(app.as_str()) {
                    Some(s) => Some(s.clone()),
                    None => None,
                }
            } else {
                None
            }
        },
        None => None,
    }
}

/// The app is registered and has a primary config file.
pub open spec fn has_primary(apps: Seq<(Seq<char>, Application)>, name: Seq<char>) -> bool {
    map_get(apps, name) matches Some(a) && a.primary_config is Some
}

/// Whether the given app has a primary config registered.
pub fn has_primary_config(shared: &SharedAppConfig, app_name: &str) -> (r: bool)
    ensures
        r == has_primary(shared.apps@, app_name@),
{
    match shared.apps.get(app_name) {
        Some(a) => a.primary_config.is_some(),
        None => false,
    }
}

/// Rows of the apps panel shown with `visible` rows on screen.
pub fn app_scroll_for_visible(shared: &SharedAppConfig, active: &str, cursor: usize, visible: usize) -> (r: (usize, usize))
    requires
        active_apps(shared.profiles@, active@).len() > 0 ==> cursor < usize::MAX,
    ensures
        r == window(cursor, visible, active_apps(shared.profiles@, active@).len() as usize),
{
    scroll_window(cursor, visible, app_count(shared, active))
}

/// The apps cursor after a move down among `count` apps.
pub fn app_cursor_down(cursor: usize, count: usize) -> (r: usize)
    ensures
        r == (if count > 0 && cursor + 1 < count {
            cursor + 1
        } else {
            cursor as int
        }),
{
    if count > 0 && cursor < count - 1 {
        cursor + 1
    } else {
        cursor
    }
}

/// The apps cursor after a move up.
pub fn app_cursor_up(cursor: usize) -> (r: usize)
    ensures
        r == (if cursor > 0 {
            cursor - 1
        } else {
            0
        }),
{
    if cursor > 0 {
        cursor - 1
    } else {
        0
    }
}

/// The apps cursor after the configs were reloaded with `count` apps: kept where it can
/// be, else on the last app (0 when there is none).
pub fn clamp_app_cursor(cursor: usize, count: usize) -> (r: usize)
    ensures
        r == (if count == 0 {
            0
        } else if cursor < count {
            cursor as int
        } else {
            count - 1
        }),
{
    if count == 0 {
        0
    } else if cursor < count {
        cursor
    } else {
        count - 1
    }
}

/// Where a primary config lies inside the roost copy of an app: a path under the app's
/// original location `link_base` is moved under `app_dir`; any other path stays as it is.
pub open spec fn internal_path(primary: Seq<char>, link_base: Option<Seq<char>>, app_dir: Seq<char>) -> Seq<char> {
    match link_base {
        Some(base) => match path_rest(primary, base) {
            Some(rel) => path_join(app_dir, rel),
            None => primary,
        },
        None => primary,
    }
}

/// Computes [`internal_path`].
pub fn internal_primary_path(primary: &str, link_base: Option<&str>, app_dir: &str) -> (r: String)
    ensures
        r@ == internal_path(primary@, match link_base {
            Some(b) => Some(b@),
            None => None,
        }, app_dir@),
{
    match link_base {
        Some(base) => match strip_path_prefix(primary, base) {
            Some(rel) => join(app_dir, rel.as_str()),
            None => primary.to_owned(),
        },
        None => primary.to_owned(),
    }
}

/// The directory the files panel opens for the app under `cursor`: the app's directory in
/// the profile it is linked from, else in profile `active`.
pub open spec fn app_dir_of(roost: Seq<char>, active: Seq<char>, app: Seq<char>, source: Option<String>) -> Seq<char> {
    path_join(
        path_join(
            roost,
            match source {
                Some(s) => s@,
                None => active,
            },
        ),
        app,
    )
}

/// The directories to open, from the app's directory `app_dir` down, to reach the file
/// at `internal`: the components of its place below `app_dir` but the last; none when it
/// does not lie below `app_dir`.
pub open spec fn trail_to(internal: Seq<char>, app_dir: Seq<char>) -> Seq<Seq<char>> {
    match path_rest(internal, app_dir) {
        Some(rel) => {
            let c = path_components(rel);
            if c.len() > 0 {
                c.drop_last()
            } else {
                c
            }
        },
        None => Seq::empty(),
    }
}

/// The trail to the primary config of app `app` (none when it has none).
pub open spec fn primary_trail_of(shared: SharedAppConfig, local: LocalAppConfig, app: Seq<char>, app_dir: Seq<char>) -> Seq<Seq<char>> {
    match map_get(shared.apps@, app) {
        Some(a) => match a.primary_config {
            Some(p) => trail_to(
                internal_path(
                    p@,
                    match map_get(local.link_paths@, app) {
                        Some(b) => Some(b@),
                        None => None,
                    },
                    app_dir,
                ),
                app_dir,
            ),
            None => Seq::empty(),
        },
        None => Seq::empty(),
    }
}

/// Where the files panel shows the app under `cursor` of the active profile: its
/// directory (see [`app_dir_of`]), and the directories to open to reach its primary
/// config (see [`primary_trail_of`]); `None` when no app is under the cursor.
pub fn files_view_of(shared: &SharedAppConfig, local: &LocalAppConfig, roost_dir: &str, cursor: usize) -> (r: Option<(String, Vec<String>)>)
    ensures
        match r {
            None => cursor >= active_apps(shared.profiles@, local.active_profile@).len(),
            Some((dir, trail)) => {
                let app = active_apps(shared.profiles@, local.active_profile@)[cursor as int];
                &&& cursor < active_apps(shared.profiles@, local.active_profile@).len()
                &&& dir@ == app_dir_of(
                    roost_dir@,
                    local.active_profile@,
                    app,
                    selected_source(shared.profiles@, local.active_profile@, cursor as int),
                )
                &&& trail@.map_values(|t: String| t@) == primary_trail_of(*shared, *local, app, dir@)
            },
        },
{
    let active = local.active_profile.as_str();
    let app = match selected_app(shared, active, cursor) {
        Some(a) => a,
        None => return None,
    };
    let source = selected_app_source(shared, active, cursor);
    let owner = match &source {
        Some(s) => join(roost_dir, s.as_str()),
        None => join(roost_dir, active),
    };
    let dir = join(owner.as_str(), app.as_str());
    let mut trail: Vec<String> = Vec::new();
    let primary: Option<String> = match shared.apps.get(app.as_str()) {
        Some(a) => match &a.primary_config {
            Some(p) => Some(p.clone()),
            None => None,
        },
        None => None,
    };
    if let Some(p) = primary {
        let base: Option<String> = match local.link_paths.get(app.as_str()) {
            Some(b) => Some(b.clone()),
            None => None,
        };
        let internal = match &base {
            Some(b) => internal_primary_path(p.as_str(), Some(b.as_str()), dir.as_str()),
            None => internal_primary_path(p.as_str(), None, dir.as_str()),
        };
        match strip_path_prefix(internal.as_str(), dir.as_str()) {
            Some(rel) => {
                let parts = components(rel.as_str());
                let n = if parts.len() > 0 {
                    parts.len() - 1
                } else {
                    0
                };
                let ghost c = path_components(rel@);
                let mut i: usize = 0;
                while i < n
                    invariant
                        i <= n,
                        n == (if c.len() > 0 {
                            c.len() - 1
                        } else {
                            0
                        }),
                        parts@.len() == c.len(),
                        forall|k: int| 0 <= k < parts@.len() ==> #[trigger] parts@[k]@ == c[k],
                        trail@.map_values(|t: String| t@) == c.take(i as int),
                    decreases n - i,
                {
                    let piece = crate::text::string_from_chars(parts[i].as_slice());
                    let ghost before = trail@;
                    trail.push(piece);
                    proof {
                        assert(piece@ == c[i as int]);
                        assert(trail@ == before.push(piece));
                        assert(before.map_values(|t: String| t@) == c.take(i as int));
                        assert(trail@.map_values(|t: String| t@) =~= c.take(i as int).push(c[i as int]));
                        assert(c.take(i as int).push(c[i as int]) =~= c.take(i + 1));
                    }
                    i = i + 1;
                }
                proof {
                    if c.len() > 0 {
                        assert(c.take(n as int) =~= c.drop_last());
                    } else {
                        assert(c.take(0) =~= c);
                    }
                }
            },
            None => {
                proof {
                    assert(trail@.map_values(|t: String| t@) =~= Seq::<Seq<char>>::empty());
                }
            },
        }
    } else {
        proof {
            assert(trail@.map_values(|t: String| t@) =~= Seq::<Seq<char>>::empty());
        }
    }
    Some((dir, trail))
}

} // verus!
