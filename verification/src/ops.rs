//! Operations on the configuration: adding and removing apps, managing profiles, linking
//! apps between profiles, primary configs and ignore patterns. Each function here checks
//! what the operation needs and makes its change to the configuration; moving files and
//! saving the configuration are left to the caller.
use vstd::prelude::*;

use crate::app::{name_problem, validate_app_name, validate_profile_name, Application, LocalAppConfig, NameError, Profile, SharedAppConfig};
use crate::collections::{has_key, map_get, StrMap, StrSet};
use crate::app::profile_dir;
use crate::text::concat;
use crate::linker::{app_dest, app_dest_of, path_problem, validate_path_in_home, PathError};
use crate::paths::path_join;

verus! {

/// Result of an add-app operation.
pub struct AddAppResult {
    pub app_name: String,
    pub link_actions: Vec<String>,
}

/// Result of importing an app from another profile.
pub struct ImportAppResult {
    pub app_name: String,
    pub source_profile: String,
    pub link_actions: Vec<String>,
}

/// Result of copying an app to another profile.
pub struct CopyAppResult {
    pub app_name: String,
    pub target_profile: String,
}

/// Why an operation on the configuration is refused.
#[derive(Debug, Clone)]
pub enum OpError {
    Path(PathError),
    Name(NameError),
    PathMissing(String),
    AlreadyManaged(String),
    NoLinkPath(String),
    ProfileExists(String),
    SourceProfileNotFound(String),
    ProfileMissing(String),
    ImportFromSelf,
    AppNotInProfile { app: String, profile: String },
    AlreadyInProfile { app: String, profile: String },
    TargetProfileNotFound(String),
    CopyToSelf,
    NotInActiveProfile { app: String, profile: String },
    AppNotFound(String),
}

/// [`OpError`] with its texts as character sequences.
pub ghost enum OpIssue {
    Path(PathError),
    Name(NameError),
    PathMissing(Seq<char>),
    AlreadyManaged(Seq<char>),
    NoLinkPath(Seq<char>),
    ProfileExists(Seq<char>),
    SourceProfileNotFound(Seq<char>),
    ProfileMissing(Seq<char>),
    ImportFromSelf,
    AppNotInProfile { app: Seq<char>, profile: Seq<char> },
    AlreadyInProfile { app: Seq<char>, profile: Seq<char> },
    TargetProfileNotFound(Seq<char>),
    CopyToSelf,
    NotInActiveProfile { app: Seq<char>, profile: Seq<char> },
    AppNotFound(Seq<char>),
}

impl View for OpError {
    type V = OpIssue;

    open spec fn view(&self) -> OpIssue {
        match self {
            OpError::Path(e) => OpIssue::Path(*e),
            OpError::Name(e) => OpIssue::Name(*e),
            OpError::PathMissing(p) => OpIssue::PathMissing(p@),
            OpError::AlreadyManaged(a) => OpIssue::AlreadyManaged(a@),
            OpError::NoLinkPath(a) => OpIssue::NoLinkPath(a@),
            OpError::ProfileExists(p) => OpIssue::ProfileExists(p@),
            OpError::SourceProfileNotFound(p) => OpIssue::SourceProfileNotFound(p@),
            OpError::ProfileMissing(p) => OpIssue::ProfileMissing(p@),
            OpError::ImportFromSelf => OpIssue::ImportFromSelf,
            OpError::AppNotInProfile { app, profile } => OpIssue::AppNotInProfile { app: app@, profile: profile@ },
            OpError::AlreadyInProfile { app, profile } => OpIssue::AlreadyInProfile { app: app@, profile: profile@ },
            OpError::TargetProfileNotFound(p) => OpIssue::TargetProfileNotFound(p@),
            OpError::CopyToSelf => OpIssue::CopyToSelf,
            OpError::NotInActiveProfile { app, profile } => OpIssue::NotInActiveProfile { app: app@, profile: profile@ },
            OpError::AppNotFound(a) => OpIssue::AppNotFound(a@),
        }
    }
}

// ------------------------------------------------------------------
// How the maps of the configuration change
// ------------------------------------------------------------------

/// `new` holds the elements of `old` and `x`.
pub open spec fn gains(old: Seq<Seq<char>>, new: Seq<Seq<char>>, x: Seq<char>) -> bool {
    forall|k: Seq<char>| #[trigger] new.contains(k) == (old.contains(k) || k == x)
}

/// `new` holds the elements of `old` but `x`.
pub open spec fn loses(old: Seq<Seq<char>>, new: Seq<Seq<char>>, x: Seq<char>) -> bool {
    forall|k: Seq<char>| #[trigger] new.contains(k) == (old.contains(k) && k != x)
}

/// `new` is `old` with entry `key` changed (when present) as `changed` says, and every
/// other entry the same.
pub open spec fn only_changed<V>(old: Seq<(Seq<char>, V)>, new: Seq<(Seq<char>, V)>, key: Seq<char>) -> bool {
    &&& forall|k: Seq<char>| #[trigger] has_key(new, k) == has_key(old, k)
    &&& forall|k: Seq<char>| k != key ==> #[trigger] map_get(new, k) == map_get(old, k)
}

/// The apps of profile `profile` gain `app`; nothing else changes.
pub open spec fn profile_gains_app(old: Seq<(Seq<char>, Profile)>, new: Seq<(Seq<char>, Profile)>, profile: Seq<char>, app: Seq<char>) -> bool {
    &&& only_changed(old, new, profile)
    &&& match map_get(old, profile) {
        None => map_get(new, profile) is None,
        Some(p) => map_get(new, profile) matches Some(q) && q.app_sources@ == p.app_sources@ && gains(
            p.apps@,
            q.apps@,
            app,
        ),
    }
}

/// App `app` (when registered) now lists `profile` among its profiles; nothing else changes.
pub open spec fn app_gains_profile(old: Seq<(Seq<char>, Application)>, new: Seq<(Seq<char>, Application)>, app: Seq<char>, profile: Seq<char>) -> bool {
    &&& only_changed(old, new, app)
    &&& match map_get(old, app) {
        None => map_get(new, app) is None,
        Some(a) => map_get(new, app) matches Some(b) && b.primary_config == a.primary_config && b.is_dir
            == a.is_dir && b.ignore == a.ignore && gains(a.on_profiles@, b.on_profiles@, profile),
    }
}

/// Adds `app` to the apps of `profile`, when that profile exists.
fn add_app_to_profile(profiles: &mut StrMap<Profile>, profile: &str, app: &str)
    ensures
        profile_gains_app(old(profiles)@, final(profiles)@, profile@, app@),
{
    match profiles.remove(profile) {
        None => {},
        Some(p) => {
            let mut p = p;
            p.apps.insert(app.to_owned());
            profiles.insert(profile.to_owned(), p);
        },
    }
}

/// Adds `profile` to the profiles of `app`, when that app is registered.
fn add_profile_to_app(apps: &mut StrMap<Application>, app: &str, profile: &str)
    ensures
        app_gains_profile(old(apps)@, final(apps)@, app@, profile@),
{
    match apps.remove(app) {
        None => {},
        Some(a) => {
            let mut a = a;
            a.on_profiles.insert(profile.to_owned());
            apps.insert(app.to_owned(), a);
        },
    }
}

// ------------------------------------------------------------------
// Adding and removing apps
// ------------------------------------------------------------------

/// The first reason an app cannot be added from `origin` under `app` to the active profile
/// `active`: the path, the names, the origin's existence, an app already managed.
pub open spec fn add_app_issue(
    origin: Seq<char>,
    app: Seq<char>,
    home: Seq<char>,
    active: Seq<char>,
    origin_exists: bool,
    apps: Seq<(Seq<char>, Application)>,
) -> Option<OpIssue> {
    if path_problem(origin, home) is Some {
        Some(OpIssue::Path(path_problem(origin, home)->0))
    } else if name_problem(app) is Some {
        Some(OpIssue::Name(name_problem(app)->0))
    } else if name_problem(active) is Some {
        Some(OpIssue::Name(name_problem(active)->0))
    } else if !origin_exists {
        Some(OpIssue::PathMissing(origin))
    } else if has_key(apps, app) {
        Some(OpIssue::AlreadyManaged(app))
    } else {
        None
    }
}

/// Checks that the file or directory at `origin` (which `origin_exists` says is there) can
/// be added as app `app_name` of the active profile.
pub fn add_app_check(origin: &str, app_name: &str, home: &str, origin_exists: bool, shared: &SharedAppConfig, local: &LocalAppConfig) -> (r: Result<(), OpError>)
    ensures
        match r {
            Ok(()) => add_app_issue(origin@, app_name@, home@, local.active_profile@, origin_exists, shared.apps@) is None,
            Err(e) => add_app_issue(origin@, app_name@, home@, local.active_profile@, origin_exists, shared.apps@) == Some(e@),
        },
{
    if let Err(e) = validate_path_in_home(origin, home) {
        return Err(OpError::Path(e));
    }
    if let Err(e) = validate_app_name(app_name) {
        return Err(OpError::Name(e));
    }
    if let Err(e) = validate_profile_name(local.active_profile.as_str()) {
        return Err(OpError::Name(e));
    }
    if !origin_exists {
        return Err(OpError::PathMissing(origin.to_owned()));
    }
    if shared.apps.contains_key(app_name) {
        return Err(OpError::AlreadyManaged(app_name.to_owned()));
    }
    Ok(())
}

/// Records a newly added app: registered with no primary config, on the active profile
/// only; listed in the active profile; linked from `origin` on this device.
pub fn register_app(shared: &mut SharedAppConfig, local: &mut LocalAppConfig, app_name: &str, origin: &str, is_dir: bool)
    ensures
        forall|k: Seq<char>| k != app_name@ ==> #[trigger] map_get(final(shared).apps@, k) == map_get(old(shared).apps@, k),
        forall|k: Seq<char>| #[trigger] has_key(final(shared).apps@, k) == (has_key(old(shared).apps@, k) || k == app_name@),
        map_get(final(shared).apps@, app_name@) matches Some(a) && a.primary_config is None
            && a.on_profiles@ == seq![old(local).active_profile@] && a.is_dir == is_dir && a.ignore@.len() == 0,
        profile_gains_app(old(shared).profiles@, final(shared).profiles@, old(local).active_profile@, app_name@),
        final(shared).ignored == old(shared).ignored,
        final(shared).remote == old(shared).remote,
        final(local).active_profile == old(local).active_profile,
        final(local).os_info == old(local).os_info,
        forall|k: Seq<char>| k != app_name@ ==> #[trigger] map_get(final(local).link_paths@, k) == map_get(old(local).link_paths@, k),
        forall|k: Seq<char>| #[trigger] has_key(final(local).link_paths@, k) == (has_key(old(local).link_paths@, k) || k == app_name@),
        map_get(final(local).link_paths@, app_name@) matches Some(o) && o@ == origin@,
{
    let profile_name = local.active_profile.clone();
    let mut on = StrSet::new();
    on.insert(profile_name.clone());
    proof {
        assert(on@.contains(profile_name@));
        assert(on@.len() == 1);
        assert(on@ =~= seq![profile_name@]);
    }
    shared.apps.insert(
        app_name.to_owned(),
        Application { primary_config: None, on_profiles: on, is_dir, ignore: Vec::new() },
    );
    add_app_to_profile(&mut shared.profiles, profile_name.as_str(), app_name);
    local.link_paths.insert(app_name.to_owned(), origin.to_owned());
}

/// The apps of profile `profile` lose `app`, and so do its sources; nothing else changes.
pub open spec fn profile_loses_app(old: Seq<(Seq<char>, Profile)>, new: Seq<(Seq<char>, Profile)>, profile: Seq<char>, app: Seq<char>) -> bool {
    &&& only_changed(old, new, profile)
    &&& match map_get(old, profile) {
        None => map_get(new, profile) is None,
        Some(p) => map_get(new, profile) matches Some(q) && loses(p.apps@, q.apps@, app) && (forall|k: Seq<char>|
            #[trigger] map_get(q.app_sources@, k) == if k == app {
                None
            } else {
                map_get(p.app_sources@, k)
            }) && (forall|k: Seq<char>| #[trigger] has_key(q.app_sources@, k) == (has_key(p.app_sources@, k) && k != app)),
    }
}

/// App `app` (when registered) no longer lists `profile`; nothing else changes.
pub open spec fn app_loses_profile(old: Seq<(Seq<char>, Application)>, new: Seq<(Seq<char>, Application)>, app: Seq<char>, profile: Seq<char>) -> bool {
    &&& only_changed(old, new, app)
    &&& match map_get(old, app) {
        None => map_get(new, app) is None,
        Some(a) => map_get(new, app) matches Some(b) && b.primary_config == a.primary_config && b.is_dir
            == a.is_dir && b.ignore == a.ignore && loses(a.on_profiles@, b.on_profiles@, profile),
    }
}

fn remove_app_from_profile(profiles: &mut StrMap<Profile>, profile: &str, app: &str)
    ensures
        profile_loses_app(old(profiles)@, final(profiles)@, profile@, app@),
{
    match profiles.remove(profile) {
        None => {},
        Some(p) => {
            let mut p = p;
            p.app_sources.remove(app);
            p.apps.remove(app);
            profiles.insert(profile.to_owned(), p);
        },
    }
}

fn remove_profile_from_app(apps: &mut StrMap<Application>, app: &str, profile: &str)
    ensures
        app_loses_profile(old(apps)@, final(apps)@, app@, profile@),
{
    match apps.remove(app) {
        None => {},
        Some(a) => {
            let mut a = a;
            a.on_profiles.remove(profile);
            apps.insert(app.to_owned(), a);
        },
    }
}

/// Some profile lists `app`.
pub open spec fn listed_anywhere(profiles: Seq<(Seq<char>, Profile)>, app: Seq<char>) -> bool {
    exists|i: int| 0 <= i < profiles.len() && (#[trigger] profiles[i]).1.apps@.contains(app)
}

fn any_profile_lists(profiles: &StrMap<Profile>, app: &str) -> (r: bool)
    ensures
        r == listed_anywhere(profiles@, app@),
{
    let mut i: usize = 0;
    while i < profiles.len()
        invariant
            i <= profiles@.len(),
            forall|j: int| 0 <= j < i ==> !(#[trigger] profiles@[j]).1.apps@.contains(app@),
        decreases profiles@.len() - i,
    {
        if profiles.value_at(i).apps.contains(app) {
            return true;
        }
        i = i + 1;
    }
    false
}

/// What removing an app from the active profile left to do.
pub struct Detached {
    /// Where the app's config lives on this device.
    pub origin: String,
    pub is_dir: bool,
    /// Whether another profile still lists the app (then its files stay in roost).
    pub still_used: bool,
}

/// The first reason app `app` cannot be removed from the active profile `active`.
pub open spec fn remove_app_issue(app: Seq<char>, active: Seq<char>, links: Seq<(Seq<char>, String)>) -> Option<OpIssue> {
    if name_problem(app) is Some {
        Some(OpIssue::Name(name_problem(app)->0))
    } else if name_problem(active) is Some {
        Some(OpIssue::Name(name_problem(active)->0))
    } else if !has_key(links, app) {
        Some(OpIssue::NoLinkPath(app))
    } else {
        None
    }
}

/// Removes app `app_name` from the active profile: the profile no longer lists it or links
/// it from elsewhere, and the app no longer lists the profile. Reports where the app lives
/// on this device and whether another profile still lists it. On an error nothing changes.
pub fn detach_app(app_name: &str, shared: &mut SharedAppConfig, local: &LocalAppConfig) -> (r: Result<Detached, OpError>)
    ensures
        match r {
            Err(e) => remove_app_issue(app_name@, local.active_profile@, local.link_paths@) == Some(e@)
                && *final(shared) == *old(shared),
            Ok(d) => {
                &&& remove_app_issue(app_name@, local.active_profile@, local.link_paths@) is None
                &&& map_get(local.link_paths@, app_name@) == Some(d.origin)
                &&& d.is_dir == match map_get(old(shared).apps@, app_name@) {
                    Some(a) => a.is_dir,
                    None => true,
                }
                &&& profile_loses_app(old(shared).profiles@, final(shared).profiles@, local.active_profile@, app_name@)
                &&& app_loses_profile(old(shared).apps@, final(shared).apps@, app_name@, local.active_profile@)
                &&& d.still_used == listed_anywhere(final(shared).profiles@, app_name@)
                &&& final(shared).ignored == old(shared).ignored
                &&& final(shared).remote == old(shared).remote
            },
        },
{
    if let Err(e) = validate_app_name(app_name) {
        return Err(OpError::Name(e));
    }
    let profile_name = local.active_profile.as_str();
    if let Err(e) = validate_profile_name(profile_name) {
        return Err(OpError::Name(e));
    }
    let is_dir = match shared.apps.get(app_name) {
        Some(a) => a.is_dir,
        None => true,
    };
    let origin = match local.link_paths.get(app_name) {
        Some(o) => o.clone(),
        None => return Err(OpError::NoLinkPath(app_name.to_owned())),
    };
    remove_app_from_profile(&mut shared.profiles, profile_name, app_name);
    remove_profile_from_app(&mut shared.apps, app_name, profile_name);
    let still_used = any_profile_lists(&shared.profiles, app_name);
    Ok(Detached { origin, is_dir, still_used })
}

/// Forgets an app that no profile lists any more: it is no longer registered nor linked
/// on this device.
pub fn forget_app(shared: &mut SharedAppConfig, local: &mut LocalAppConfig, app_name: &str)
    ensures
        forall|k: Seq<char>| #[trigger] map_get(final(shared).apps@, k) == if k == app_name@ {
            None
        } else {
            map_get(old(shared).apps@, k)
        },
        forall|k: Seq<char>| #[trigger] map_get(final(local).link_paths@, k) == if k == app_name@ {
            None
        } else {
            map_get(old(local).link_paths@, k)
        },
        final(shared).profiles == old(shared).profiles,
        final(shared).ignored == old(shared).ignored,
        final(shared).remote == old(shared).remote,
        final(local).active_profile == old(local).active_profile,
        final(local).os_info == old(local).os_info,
{
    shared.apps.remove(app_name);
    local.link_paths.remove(app_name);
}

// ------------------------------------------------------------------
// Profiles
// ------------------------------------------------------------------

/// Copying the files of one app into a new profile: done when `source` exists and
/// `target` does not.
pub struct CopyTask {
    pub source: String,
    pub target: String,
    pub is_dir: bool,
}

/// Whether an app counts as a directory: as registered, and a directory when unknown.
pub open spec fn app_is_dir(apps: Seq<(Seq<char>, Application)>, app: Seq<char>) -> bool {
    match map_get(apps, app) {
        Some(a) => a.is_dir,
        None => true,
    }
}

/// The first reason profile `name` cannot be created (as a copy of `copy_from`, if given).
pub open spec fn create_profile_issue(name: Seq<char>, copy_from: Option<Seq<char>>, profiles: Seq<(Seq<char>, Profile)>) -> Option<OpIssue> {
    if name_problem(name) is Some {
        Some(OpIssue::Name(name_problem(name)->0))
    } else if has_key(profiles, name) {
        Some(OpIssue::ProfileExists(name))
    } else {
        match copy_from {
            None => None,
            Some(src) => if name_problem(src) is Some {
                Some(OpIssue::Name(name_problem(src)->0))
            } else if !has_key(profiles, src) {
                Some(OpIssue::SourceProfileNotFound(src))
            } else {
                None
            },
        }
    }
}

/// `t` copies app `app` from profile directory `from` to profile directory `to`.
pub open spec fn copies(t: CopyTask, apps: Seq<(Seq<char>, Application)>, from: Seq<char>, to: Seq<char>, app: Seq<char>) -> bool {
    &&& t.is_dir == app_is_dir(apps, app)
    &&& t.source@ == app_dest_of(from, app, app_is_dir(apps, app))
    &&& t.target@ == app_dest_of(to, app, app_is_dir(apps, app))
}

/// Creates profile `name`, empty or as a copy of the apps and sources of `copy_from`.
/// Returns the copies of app files that the new profile needs. On an error nothing
/// changes.
pub fn create_profile(name: &str, copy_from: Option<&str>, shared: &mut SharedAppConfig, roost_dir: &str) -> (r: Result<Vec<CopyTask>, OpError>)
    ensures
        ({
            let src = match copy_from {
                Some(s) => Some(s@),
                None => None,
            };
            match r {
                Err(e) => create_profile_issue(name@, src, old(shared).profiles@) == Some(e@) && *final(shared) == *old(shared),
                Ok(tasks) => {
                    &&& create_profile_issue(name@, src, old(shared).profiles@) is None
                    &&& forall|k: Seq<char>| k != name@ ==> #[trigger] map_get(final(shared).profiles@, k) == map_get(old(shared).profiles@, k)
                    &&& forall|k: Seq<char>| #[trigger] has_key(final(shared).profiles@, k) == (has_key(old(shared).profiles@, k) || k == name@)
                    &&& final(shared).apps == old(shared).apps
                    &&& final(shared).ignored == old(shared).ignored
                    &&& final(shared).remote == old(shared).remote
                    &&& match src {
                        None => {
                            &&& tasks@.len() == 0
                            &&& map_get(final(shared).profiles@, name@) matches Some(q) && q.apps@.len() == 0
                                && q.app_sources@.len() == 0
                        },
                        Some(s) => map_get(old(shared).profiles@, s) matches Some(p) && map_get(final(shared).profiles@, name@) matches Some(q)
                            && q.apps@ == p.apps@ && q.app_sources@ == p.app_sources@
                            && tasks@.len() == p.apps@.len()
                            && forall|i: int| 0 <= i < tasks@.len() ==> #[trigger] copies(
                                tasks@[i],
                                old(shared).apps@,
                                path_join(roost_dir@, s),
                                path_join(roost_dir@, name@),
                                p.apps@[i],
                            ),
                    }
                },
            }
        }),
{
    if let Err(e) = validate_profile_name(name) {
        return Err(OpError::Name(e));
    }
    if shared.profiles.contains_key(name) {
        return Err(OpError::ProfileExists(name.to_owned()));
    }
    match copy_from {
        None => {
            shared.profiles.insert(name.to_owned(), Profile::empty());
            Ok(Vec::new())
        },
        Some(src) => {
            if let Err(e) = validate_profile_name(src) {
                return Err(OpError::Name(e));
            }
            let source = match shared.profiles.get(src) {
                Some(p) => p,
                None => return Err(OpError::SourceProfileNotFound(src.to_owned())),
            };
            let from = profile_dir(roost_dir, src);
            let to = profile_dir(roost_dir, name);
            let mut tasks: Vec<CopyTask> = Vec::new();
            let mut i: usize = 0;
            while i < source.apps.len()
                invariant
                    i <= source.apps@.len(),
                    from@ == path_join(roost_dir@, src@),
                    to@ == path_join(roost_dir@, name@),
                    tasks@.len() == i,
                    forall|k: int| 0 <= k < i ==> #[trigger] copies(tasks@[k], shared.apps@, from@, to@, source.apps@[k]),
                decreases source.apps@.len() - i,
            {
                let app = source.apps.at(i);
                let is_dir = match shared.apps.get(app.as_str()) {
                    Some(a) => a.is_dir,
                    None => true,
                };
                tasks.push(
                    CopyTask {
                        source: app_dest(from.as_str(), app.as_str(), is_dir),
                        target: app_dest(to.as_str(), app.as_str(), is_dir),
                        is_dir,
                    },
                );
                i = i + 1;
            }
            let copy = Profile { apps: source.apps.duplicate(), app_sources: source.app_sources.duplicate() };
            shared.profiles.insert(name.to_owned(), copy);
            Ok(tasks)
        },
    }
}

/// What deleting profile `profile` does to one app: the app no longer lists the profile,
/// and an app left on no profile at all is dropped.
pub open spec fn app_after_leaving(before: Option<Application>, after: Option<Application>, profile: Seq<char>) -> bool {
    match before {
        None => after is None,
        Some(a) => if forall|x: Seq<char>| #[trigger] a.on_profiles@.contains(x) ==> x == profile {
            after is None
        } else {
            after matches Some(b) && b.primary_config == a.primary_config && b.is_dir == a.is_dir && b.ignore
                == a.ignore && loses(a.on_profiles@, b.on_profiles@, profile)
        },
    }
}

/// The profile that becomes active when the active one is deleted: the first remaining
/// profile, or `default` when none remains.
pub open spec fn fallback_profile(profiles: Seq<(Seq<char>, Profile)>) -> Seq<char> {
    if profiles.len() > 0 {
        profiles[0].0
    } else {
        "default"@
    }
}

fn leave_profile(apps: &mut StrMap<Application>, app: &str, profile: &str)
    ensures
        app_after_leaving(map_get(old(apps)@, app@), map_get(final(apps)@, app@), profile@),
        forall|k: Seq<char>| k != app@ ==> #[trigger] map_get(final(apps)@, k) == map_get(old(apps)@, k),
{
    match apps.remove(app) {
        None => {},
        Some(a) => {
            let mut a = a;
            a.on_profiles.remove(profile);
            if a.on_profiles.is_empty() {
                proof {
                    assert forall|x: Seq<char>| #[trigger] map_get(old(apps)@, app@)->0.on_profiles@.contains(x) implies x == profile@ by {
                        if x != profile@ {
                            assert(a.on_profiles@.contains(x));
                        }
                    }
                }
            } else {
                proof {
                    let x = a.on_profiles@[0];
                    assert(a.on_profiles@.contains(x));
                }
                apps.insert(app.to_owned(), a);
            }
        },
    }
}

/// Deletes profile `name` from the configuration: its apps no longer list it, apps left on
/// no profile are dropped, and when it was the active profile the first remaining profile
/// (or `default`) becomes active, which is returned. On an error nothing changes.
pub fn delete_profile(name: &str, shared: &mut SharedAppConfig, local: &mut LocalAppConfig) -> (r: Result<Option<String>, OpError>)
    ensures
        match r {
            Err(e) => {
                &&& e@ == if name_problem(name@) is Some {
                    OpIssue::Name(name_problem(name@)->0)
                } else {
                    OpIssue::ProfileMissing(name@)
                }
                &&& (name_problem(name@) is Some || !has_key(old(shared).profiles@, name@))
                &&& *final(shared) == *old(shared)
                &&& *final(local) == *old(local)
            },
            Ok(fallback) => {
                &&& name_problem(name@) is None && has_key(old(shared).profiles@, name@)
                &&& forall|k: Seq<char>| #[trigger] map_get(final(shared).profiles@, k) == if k == name@ {
                    None
                } else {
                    map_get(old(shared).profiles@, k)
                }
                &&& forall|k: Seq<char>| #[trigger] map_get(old(shared).profiles@, name@)->0.apps@.contains(k) ==> app_after_leaving(
                    map_get(old(shared).apps@, k),
                    map_get(final(shared).apps@, k),
                    name@,
                )
                &&& forall|k: Seq<char>| !#[trigger] map_get(old(shared).profiles@, name@)->0.apps@.contains(k) ==> map_get(final(shared).apps@, k) == map_get(old(shared).apps@, k)
                &&& final(shared).ignored == old(shared).ignored
                &&& final(shared).remote == old(shared).remote
                &&& final(local).os_info == old(local).os_info
                &&& final(local).link_paths == old(local).link_paths
                &&& if old(local).active_profile@ == name@ {
                    fallback matches Some(f) && f@ == fallback_profile(final(shared).profiles@)
                        && final(local).active_profile@ == f@
                } else {
                    fallback is None && final(local).active_profile == old(local).active_profile
                }
            },
        },
{
    if let Err(e) = validate_profile_name(name) {
        return Err(OpError::Name(e));
    }
    let members = match shared.profiles.get(name) {
        Some(p) => p.apps.duplicate(),
        None => return Err(OpError::ProfileMissing(name.to_owned())),
    };
    members.reveal_sorted();
    let ghost old_apps = shared.apps@;
    let mut i: usize = 0;
    while i < members.len()
        invariant
            i <= members@.len(),
            crate::collections::texts_sorted(members@),
            shared.profiles == old(shared).profiles,
            shared.ignored == old(shared).ignored,
            shared.remote == old(shared).remote,
            old_apps == old(shared).apps@,
            map_get(old(shared).profiles@, name@) matches Some(p) && p.apps@ == members@,
            forall|k: Seq<char>| #[trigger] members@.take(i as int).contains(k) ==> app_after_leaving(
                map_get(old_apps, k),
                map_get(shared.apps@, k),
                name@,
            ),
            forall|k: Seq<char>| !#[trigger] members@.take(i as int).contains(k) ==> map_get(shared.apps@, k) == map_get(old_apps, k),
        decreases members@.len() - i,
    {
        let app = members.at(i);
        proof {
            let t1 = members@.take(i + 1);
            let t0 = members@.take(i as int);
            assert forall|k: Seq<char>| #[trigger] t1.contains(k) == (t0.contains(k) || k == members@[i as int]) by {
                if t1.contains(k) {
                    let j = choose|j: int| 0 <= j < t1.len() && t1[j] == k;
                    if j < i {
                        assert(t0[j] == k);
                    }
                }
                if t0.contains(k) {
                    let j = choose|j: int| 0 <= j < t0.len() && t0[j] == k;
                    assert(t1[j] == k);
                }
                if k == members@[i as int] {
                    assert(t1[i as int] == k);
                }
            }
            assert(!t0.contains(members@[i as int])) by {
                if t0.contains(members@[i as int]) {
                    let j = choose|j: int| 0 <= j < t0.len() && t0[j] == members@[i as int];
                    assert(crate::collections::text_lt(members@[j], members@[i as int]));
                    crate::collections::lemma_text_lt_irreflexive(members@[i as int]);
                }
            }
        }
        leave_profile(&mut shared.apps, app.as_str(), name);
        i = i + 1;
    }
    proof {
        assert(members@.take(members@.len() as int) =~= members@);
    }
    shared.profiles.remove(name);
    if crate::text::str_eq(local.active_profile.as_str(), name) {
        let fallback = if shared.profiles.len() > 0 {
            shared.profiles.key_at(0).clone()
        } else {
            "default".to_owned()
        };
        local.active_profile = fallback.clone();
        Ok(Some(fallback))
    } else {
        Ok(None)
    }
}

/// `q` is profile `p` after a rename of profile `old` to `new`: the same apps, and every
/// app linked from `old` now linked from `new`.
pub open spec fn renamed_sources(p: Profile, q: Profile, old: Seq<char>, new: Seq<char>) -> bool {
    &&& q.apps@ == p.apps@
    &&& forall|a: Seq<char>| #[trigger] has_key(q.app_sources@, a) == has_key(p.app_sources@, a)
    &&& forall|a: Seq<char>| match #[trigger] map_get(p.app_sources@, a) {
        None => map_get(q.app_sources@, a) is None,
        Some(s) => map_get(q.app_sources@, a) matches Some(t) && if s@ == old {
            t@ == new
        } else {
            t == s
        },
    }
}

/// `b` is app `a` after a rename of profile `old` to `new`.
pub open spec fn renamed_app(a: Application, b: Application, old: Seq<char>, new: Seq<char>) -> bool {
    &&& b.primary_config == a.primary_config
    &&& b.is_dir == a.is_dir
    &&& b.ignore == a.ignore
    &&& forall|x: Seq<char>| #[trigger] b.on_profiles@.contains(x) == if a.on_profiles@.contains(old) {
        (a.on_profiles@.contains(x) && x != old) || x == new
    } else {
        a.on_profiles@.contains(x)
    }
}

/// The first reason profile `old` cannot be renamed to `new`.
pub open spec fn rename_issue(old: Seq<char>, new: Seq<char>, profiles: Seq<(Seq<char>, Profile)>) -> Option<OpIssue> {
    if name_problem(old) is Some {
        Some(OpIssue::Name(name_problem(old)->0))
    } else if name_problem(new) is Some {
        Some(OpIssue::Name(name_problem(new)->0))
    } else if !has_key(profiles, old) {
        Some(OpIssue::ProfileMissing(old))
    } else if has_key(profiles, new) {
        Some(OpIssue::ProfileExists(new))
    } else {
        None
    }
}

fn rename_in_app(a: &mut Application, from: &str, to: &str)
    ensures
        renamed_app(*old(a), *final(a), from@, to@),
{
    if a.on_profiles.remove(from) {
        a.on_profiles.insert(to.to_owned());
    }
}

fn rename_in_sources(p: &mut Profile, from: &str, to: &str)
    ensures
        renamed_sources(*old(p), *final(p), from@, to@),
{
    let ghost start = p.app_sources@;
    p.app_sources.reveal_sorted();
    let mut i: usize = 0;
    while i < p.app_sources.len()
        invariant
            i <= p.app_sources@.len(),
            p.apps == old(p).apps,
            start == old(p).app_sources@,
            crate::collections::keys_sorted(start),
            p.app_sources@.len() == start.len(),
            crate::collections::keys_sorted(p.app_sources@),
            forall|j: int| 0 <= j < start.len() ==> (#[trigger] p.app_sources@[j]).0 == start[j].0,
            forall|j: int| i <= j < start.len() ==> (#[trigger] p.app_sources@[j]).1 == start[j].1,
            forall|j: int| 0 <= j < i ==> if (#[trigger] start[j]).1@ == from@ {
                p.app_sources@[j].1@ == to@
            } else {
                p.app_sources@[j].1 == start[j].1
            },
        decreases start.len() - i,
    {
        if crate::text::str_eq(p.app_sources.value_at(i).as_str(), from) {
            p.app_sources.replace_at(i, to.to_owned());
        }
        i = i + 1;
    }
    proof {
        let q = p.app_sources@;
        assert forall|a: Seq<char>| #[trigger] has_key(q, a) == has_key(start, a) by {
            if has_key(q, a) {
                let j = choose|j: int| 0 <= j < q.len() && (#[trigger] q[j]).0 == a;
                assert(start[j].0 == a);
            }
            if has_key(start, a) {
                let j = choose|j: int| 0 <= j < start.len() && (#[trigger] start[j]).0 == a;
                assert(q[j].0 == a);
            }
        }
        assert forall|a: Seq<char>| match #[trigger] map_get(start, a) {
            None => map_get(q, a) is None,
            Some(s) => map_get(q, a) matches Some(t) && if s@ == from@ {
                t@ == to@
            } else {
                t == s
            },
        } by {
            if has_key(start, a) {
                let j = choose|j: int| 0 <= j < start.len() && (#[trigger] start[j]).0 == a;
                crate::collections::lemma_map_get_at(start, j);
                crate::collections::lemma_map_get_at(q, j);
            }
        }
    }
}

/// Renames profile `old` to `new` everywhere: the profile itself, the apps that list it,
/// the apps linked from it, and the active profile. On an error nothing changes.
pub fn rename_profile(old_name: &str, new_name: &str, shared: &mut SharedAppConfig, local: &mut LocalAppConfig) -> (r: Result<(), OpError>)
    ensures
        match r {
            Err(e) => rename_issue(old_name@, new_name@, old(shared).profiles@) == Some(e@)
                && *final(shared) == *old(shared) && *final(local) == *old(local),
            Ok(()) => {
                &&& rename_issue(old_name@, new_name@, old(shared).profiles@) is None
                &&& forall|k: Seq<char>| #[trigger] has_key(final(shared).profiles@, k) == ((has_key(old(shared).profiles@, k) && k != old_name@) || k == new_name@)
                &&& forall|k: Seq<char>| has_key(old(shared).profiles@, k) && k != old_name@ ==> renamed_sources(
                    map_get(old(shared).profiles@, k)->0,
                    #[trigger] map_get(final(shared).profiles@, k)->0,
                    old_name@,
                    new_name@,
                )
                &&& renamed_sources(
                    map_get(old(shared).profiles@, old_name@)->0,
                    map_get(final(shared).profiles@, new_name@)->0,
                    old_name@,
                    new_name@,
                )
                &&& forall|k: Seq<char>| #[trigger] has_key(final(shared).apps@, k) == has_key(old(shared).apps@, k)
                &&& forall|k: Seq<char>| has_key(old(shared).apps@, k) ==> renamed_app(
                    map_get(old(shared).apps@, k)->0,
                    #[trigger] map_get(final(shared).apps@, k)->0,
                    old_name@,
                    new_name@,
                )
                &&& final(shared).ignored == old(shared).ignored
                &&& final(shared).remote == old(shared).remote
                &&& final(local).os_info == old(local).os_info
                &&& final(local).link_paths == old(local).link_paths
                &&& final(local).active_profile@ == if old(local).active_profile@ == old_name@ {
                    new_name@
                } else {
                    old(local).active_profile@
                }
            },
        },
{
    if let Err(e) = validate_profile_name(old_name) {
        return Err(OpError::Name(e));
    }
    if let Err(e) = validate_profile_name(new_name) {
        return Err(OpError::Name(e));
    }
    if !shared.profiles.contains_key(old_name) {
        return Err(OpError::ProfileMissing(old_name.to_owned()));
    }
    if shared.profiles.contains_key(new_name) {
        return Err(OpError::ProfileExists(new_name.to_owned()));
    }
    let ghost old_profiles = shared.profiles@;
    let ghost old_apps = shared.apps@;
    match shared.profiles.remove(old_name) {
        Some(p) => {
            shared.profiles.insert(new_name.to_owned(), p);
        },
        None => {},
    }
    let ghost renamed_profiles = shared.profiles@;
    proof {
        assert(has_key(old_profiles, old_name@));
        assert(forall|k: Seq<char>| #[trigger] has_key(renamed_profiles, k) == ((has_key(old_profiles, k) && k != old_name@) || k == new_name@));
        assert(forall|k: Seq<char>| k != old_name@ && k != new_name@ ==> #[trigger] map_get(renamed_profiles, k) == map_get(old_profiles, k));
        assert(map_get(renamed_profiles, new_name@) == map_get(old_profiles, old_name@));
    }
    // every app that lists the old name now lists the new one
    shared.apps.reveal_sorted();
    let mut i: usize = 0;
    while i < shared.apps.len()
        invariant
            i <= shared.apps@.len(),
            shared.apps@.len() == old_apps.len(),
            crate::collections::keys_sorted(old_apps),
            crate::collections::keys_sorted(shared.apps@),
            old_apps == old(shared).apps@,
            shared.profiles@ == renamed_profiles,
            shared.ignored == old(shared).ignored,
            shared.remote == old(shared).remote,
            forall|j: int| 0 <= j < old_apps.len() ==> (#[trigger] shared.apps@[j]).0 == old_apps[j].0,
            forall|j: int| i <= j < old_apps.len() ==> (#[trigger] shared.apps@[j]).1 == old_apps[j].1,
            forall|j: int| 0 <= j < i ==> renamed_app(old_apps[j].1, (#[trigger] shared.apps@[j]).1, old_name@, new_name@),
        decreases old_apps.len() - i,
    {
        let placeholder = Application { primary_config: None, on_profiles: StrSet::new(), is_dir: false, ignore: Vec::new() };
        let mut a = shared.apps.replace_at(i, placeholder);
        rename_in_app(&mut a, old_name, new_name);
        shared.apps.replace_at(i, a);
        i = i + 1;
    }
    shared.profiles.reveal_sorted();
    let mut i: usize = 0;
    while i < shared.profiles.len()
        invariant
            i <= shared.profiles@.len(),
            shared.profiles@.len() == renamed_profiles.len(),
            crate::collections::keys_sorted(renamed_profiles),
            crate::collections::keys_sorted(shared.profiles@),
            forall|j: int| 0 <= j < renamed_profiles.len() ==> (#[trigger] shared.profiles@[j]).0 == renamed_profiles[j].0,
            forall|j: int| i <= j < renamed_profiles.len() ==> (#[trigger] shared.profiles@[j]).1 == renamed_profiles[j].1,
            forall|j: int| 0 <= j < i ==> renamed_sources(renamed_profiles[j].1, (#[trigger] shared.profiles@[j]).1, old_name@, new_name@),
            shared.apps@.len() == old(shared).apps@.len(),
            forall|j: int| 0 <= j < old(shared).apps@.len() ==> (#[trigger] shared.apps@[j]).0 == old(shared).apps@[j].0,
            forall|j: int| 0 <= j < old(shared).apps@.len() ==> renamed_app(old(shared).apps@[j].1, (#[trigger] shared.apps@[j]).1, old_name@, new_name@),
            crate::collections::keys_sorted(old(shared).apps@),
            crate::collections::keys_sorted(shared.apps@),
            shared.ignored == old(shared).ignored,
            shared.remote == old(shared).remote,
        decreases renamed_profiles.len() - i,
    {
        let mut p = shared.profiles.replace_at(i, Profile::empty());
        rename_in_sources(&mut p, old_name, new_name);
        shared.profiles.replace_at(i, p);
        i = i + 1;
    }
    proof {
        let fp = shared.profiles@;
        assert forall|k: Seq<char>| #[trigger] has_key(fp, k) == has_key(renamed_profiles, k) by {
            if has_key(fp, k) {
                let j = choose|j: int| 0 <= j < fp.len() && (#[trigger] fp[j]).0 == k;
                assert(renamed_profiles[j].0 == k);
            }
            if has_key(renamed_profiles, k) {
                let j = choose|j: int| 0 <= j < renamed_profiles.len() && (#[trigger] renamed_profiles[j]).0 == k;
                assert(fp[j].0 == k);
            }
        }
        assert forall|k: Seq<char>| has_key(renamed_profiles, k) implies renamed_sources(
            map_get(renamed_profiles, k)->0,
            #[trigger] map_get(fp, k)->0,
            old_name@,
            new_name@,
        ) by {
            let j = choose|j: int| 0 <= j < renamed_profiles.len() && (#[trigger] renamed_profiles[j]).0 == k;
            crate::collections::lemma_map_get_at(renamed_profiles, j);
            crate::collections::lemma_map_get_at(fp, j);
        }
        let fa = shared.apps@;
        let oa = old(shared).apps@;
        assert forall|k: Seq<char>| #[trigger] has_key(fa, k) == has_key(oa, k) by {
            if has_key(fa, k) {
                let j = choose|j: int| 0 <= j < fa.len() && (#[trigger] fa[j]).0 == k;
                assert(oa[j].0 == k);
            }
            if has_key(oa, k) {
                let j = choose|j: int| 0 <= j < oa.len() && (#[trigger] oa[j]).0 == k;
                assert(fa[j].0 == k);
            }
        }
        assert forall|k: Seq<char>| has_key(oa, k) implies renamed_app(
            map_get(oa, k)->0,
            #[trigger] map_get(fa, k)->0,
            old_name@,
            new_name@,
        ) by {
            let j = choose|j: int| 0 <= j < oa.len() && (#[trigger] oa[j]).0 == k;
            crate::collections::lemma_map_get_at(oa, j);
            crate::collections::lemma_map_get_at(fa, j);
        }
    }
    if crate::text::str_eq(local.active_profile.as_str(), old_name) {
        local.active_profile = new_name.to_owned();
    }
    Ok(())
}

// ------------------------------------------------------------------
// Linking and copying apps between profiles
// ------------------------------------------------------------------

/// The first reason app `app` cannot be imported from profile `source` into the active
/// profile `current`.
pub open spec fn import_issue(app: Seq<char>, source: Seq<char>, current: Seq<char>, profiles: Seq<(Seq<char>, Profile)>) -> Option<OpIssue> {
    if name_problem(app) is Some {
        Some(OpIssue::Name(name_problem(app)->0))
    } else if name_problem(source) is Some {
        Some(OpIssue::Name(name_problem(source)->0))
    } else if name_problem(current) is Some {
        Some(OpIssue::Name(name_problem(current)->0))
    } else if !has_key(profiles, source) {
        Some(OpIssue::SourceProfileNotFound(source))
    } else if current == source {
        Some(OpIssue::ImportFromSelf)
    } else if !map_get(profiles, source)->0.apps@.contains(app) {
        Some(OpIssue::AppNotInProfile { app, profile: source })
    } else if map_get(profiles, current) matches Some(p) && p.apps@.contains(app) {
        Some(OpIssue::AlreadyInProfile { app, profile: current })
    } else {
        None
    }
}

/// Checks that app `app_name` of profile `source_profile` can be linked into the active
/// profile.
pub fn import_app_check(app_name: &str, source_profile: &str, shared: &SharedAppConfig, local: &LocalAppConfig) -> (r: Result<(), OpError>)
    ensures
        match r {
            Ok(()) => import_issue(app_name@, source_profile@, local.active_profile@, shared.profiles@) is None,
            Err(e) => import_issue(app_name@, source_profile@, local.active_profile@, shared.profiles@) == Some(e@),
        },
{
    if let Err(e) = validate_app_name(app_name) {
        return Err(OpError::Name(e));
    }
    if let Err(e) = validate_profile_name(source_profile) {
        return Err(OpError::Name(e));
    }
    let current = local.active_profile.as_str();
    if let Err(e) = validate_profile_name(current) {
        return Err(OpError::Name(e));
    }
    let source = match shared.profiles.get(source_profile) {
        Some(p) => p,
        None => return Err(OpError::SourceProfileNotFound(source_profile.to_owned())),
    };
    if crate::text::str_eq(current, source_profile) {
        return Err(OpError::ImportFromSelf);
    }
    if !source.apps.contains(app_name) {
        return Err(OpError::AppNotInProfile { app: app_name.to_owned(), profile: source_profile.to_owned() });
    }
    match shared.profiles.get(current) {
        Some(p) => {
            if p.apps.contains(app_name) {
                return Err(OpError::AlreadyInProfile { app: app_name.to_owned(), profile: current.to_owned() });
            }
        },
        None => {},
    }
    Ok(())
}

/// Profile `profile` now lists `app` and links it from `source`; nothing else changes.
pub open spec fn profile_gains_link(old: Seq<(Seq<char>, Profile)>, new: Seq<(Seq<char>, Profile)>, profile: Seq<char>, app: Seq<char>, source: Seq<char>) -> bool {
    &&& only_changed(old, new, profile)
    &&& match map_get(old, profile) {
        None => map_get(new, profile) is None,
        Some(p) => map_get(new, profile) matches Some(q) && gains(p.apps@, q.apps@, app) && (forall|k: Seq<char>|
            k != app ==> #[trigger] map_get(q.app_sources@, k) == map_get(p.app_sources@, k))
            && (map_get(q.app_sources@, app) matches Some(s) && s@ == source) && (forall|k: Seq<char>|
            #[trigger] has_key(q.app_sources@, k) == (has_key(p.app_sources@, k) || k == app)),
    }
}

/// Records an imported app: the active profile `current` lists it and links it from
/// `source_profile`, and the app lists `current`.
pub fn record_import(shared: &mut SharedAppConfig, app_name: &str, source_profile: &str, current: &str)
    ensures
        profile_gains_link(old(shared).profiles@, final(shared).profiles@, current@, app_name@, source_profile@),
        app_gains_profile(old(shared).apps@, final(shared).apps@, app_name@, current@),
        final(shared).ignored == old(shared).ignored,
        final(shared).remote == old(shared).remote,
{
    match shared.profiles.remove(current) {
        None => {},
        Some(p) => {
            let mut p = p;
            p.apps.insert(app_name.to_owned());
            p.app_sources.insert(app_name.to_owned(), source_profile.to_owned());
            shared.profiles.insert(current.to_owned(), p);
        },
    }
    add_profile_to_app(&mut shared.apps, app_name, current);
}

/// The first reason app `app` of the active profile `current` cannot be copied to
/// profile `target`.
pub open spec fn copy_issue(app: Seq<char>, target: Seq<char>, current: Seq<char>, profiles: Seq<(Seq<char>, Profile)>) -> Option<OpIssue> {
    if name_problem(app) is Some {
        Some(OpIssue::Name(name_problem(app)->0))
    } else if name_problem(target) is Some {
        Some(OpIssue::Name(name_problem(target)->0))
    } else if name_problem(current) is Some {
        Some(OpIssue::Name(name_problem(current)->0))
    } else if !has_key(profiles, target) {
        Some(OpIssue::TargetProfileNotFound(target))
    } else if current == target {
        Some(OpIssue::CopyToSelf)
    } else if !(map_get(profiles, current) matches Some(p) && p.apps@.contains(app)) {
        Some(OpIssue::NotInActiveProfile { app, profile: current })
    } else if map_get(profiles, target)->0.apps@.contains(app) {
        Some(OpIssue::AlreadyInProfile { app, profile: target })
    } else {
        None
    }
}

/// Checks that app `app_name` of the active profile can be copied to `target_profile`.
pub fn copy_app_check(app_name: &str, target_profile: &str, shared: &SharedAppConfig, local: &LocalAppConfig) -> (r: Result<(), OpError>)
    ensures
        match r {
            Ok(()) => copy_issue(app_name@, target_profile@, local.active_profile@, shared.profiles@) is None,
            Err(e) => copy_issue(app_name@, target_profile@, local.active_profile@, shared.profiles@) == Some(e@),
        },
{
    if let Err(e) = validate_app_name(app_name) {
        return Err(OpError::Name(e));
    }
    if let Err(e) = validate_profile_name(target_profile) {
        return Err(OpError::Name(e));
    }
    let current = local.active_profile.as_str();
    if let Err(e) = validate_profile_name(current) {
        return Err(OpError::Name(e));
    }
    let target = match shared.profiles.get(target_profile) {
        Some(p) => p,
        None => return Err(OpError::TargetProfileNotFound(target_profile.to_owned())),
    };
    if crate::text::str_eq(current, target_profile) {
        return Err(OpError::CopyToSelf);
    }
    let in_current = match shared.profiles.get(current) {
        Some(p) => p.apps.contains(app_name),
        None => false,
    };
    if !in_current {
        return Err(OpError::NotInActiveProfile { app: app_name.to_owned(), profile: current.to_owned() });
    }
    if target.apps.contains(app_name) {
        return Err(OpError::AlreadyInProfile { app: app_name.to_owned(), profile: target_profile.to_owned() });
    }
    Ok(())
}

/// Records a copied app: profile `target_profile` lists it and the app lists the profile.
pub fn record_copy(shared: &mut SharedAppConfig, app_name: &str, target_profile: &str)
    ensures
        profile_gains_app(old(shared).profiles@, final(shared).profiles@, target_profile@, app_name@),
        app_gains_profile(old(shared).apps@, final(shared).apps@, app_name@, target_profile@),
        final(shared).ignored == old(shared).ignored,
        final(shared).remote == old(shared).remote,
{
    add_app_to_profile(&mut shared.profiles, target_profile, app_name);
    add_profile_to_app(&mut shared.apps, app_name, target_profile);
}

// ------------------------------------------------------------------
// Primary configs and ignore patterns
// ------------------------------------------------------------------

/// Where a file chosen inside roost lives on this device: a path inside the app's roost
/// copy (`profile_base/app` for a directory app, `profile_base/misc` for a file app) is
/// moved under the app's original location `link_base`; any other path stays as it is.
pub open spec fn resolved_primary(path: Seq<char>, link_base: Option<Seq<char>>, profile_base: Seq<char>, app: Seq<char>, is_dir: bool) -> Seq<char> {
    match link_base {
        None => path,
        Some(base) => {
            let app_dir = if is_dir {
                path_join(profile_base, app)
            } else {
                path_join(profile_base, "misc"@)
            };
            match crate::paths::path_rest(path, app_dir) {
                Some(rel) => path_join(base, rel),
                None => path,
            }
        },
    }
}

/// Makes `path` the primary config of app `app_name`. A path inside roost is recorded as
/// where the file lives on this device (see [`resolved_primary`]); the roost copy is that
/// of `source_profile` when given, else of the active profile. On an error nothing changes.
pub fn set_primary(app_name: &str, path: &str, source_profile: Option<&str>, shared: &mut SharedAppConfig, local: &LocalAppConfig, roost_dir: &str) -> (r: Result<(), OpError>)
    ensures
        match r {
            Err(e) => *final(shared) == *old(shared) && if name_problem(app_name@) is Some {
                e@ == OpIssue::Name(name_problem(app_name@)->0)
            } else {
                e@ == OpIssue::AppNotFound(app_name@) && !has_key(old(shared).apps@, app_name@)
            },
            Ok(()) => {
                &&& name_problem(app_name@) is None
                &&& only_changed(old(shared).apps@, final(shared).apps@, app_name@)
                &&& map_get(old(shared).apps@, app_name@) matches Some(a)
                &&& map_get(final(shared).apps@, app_name@) matches Some(b)
                &&& b.on_profiles == a.on_profiles && b.is_dir == a.is_dir && b.ignore == a.ignore
                &&& b.primary_config matches Some(p) && p@ == resolved_primary(
                    path@,
                    match map_get(local.link_paths@, app_name@) {
                        Some(o) => Some(o@),
                        None => None,
                    },
                    path_join(roost_dir@, match source_profile {
                        Some(s) => s@,
                        None => local.active_profile@,
                    }),
                    app_name@,
                    a.is_dir,
                )
                &&& final(shared).profiles == old(shared).profiles
                &&& final(shared).ignored == old(shared).ignored
                &&& final(shared).remote == old(shared).remote
            },
        },
{
    if let Err(e) = validate_app_name(app_name) {
        return Err(OpError::Name(e));
    }
    if !shared.apps.contains_key(app_name) {
        return Err(OpError::AppNotFound(app_name.to_owned()));
    }
    let app = match shared.apps.remove(app_name) {
        Some(a) => a,
        None => return Err(OpError::AppNotFound(app_name.to_owned())),
    };
    let resolved = match local.link_paths.get(app_name) {
        None => path.to_owned(),
        Some(base) => {
            let profile_base = match source_profile {
                Some(src) => profile_dir(roost_dir, src),
                None => profile_dir(roost_dir, local.active_profile.as_str()),
            };
            let app_dir = if app.is_dir {
                crate::paths::join(profile_base.as_str(), app_name)
            } else {
                crate::paths::join(profile_base.as_str(), crate::linker::MISC_DIR_NAME)
            };
            match crate::paths::strip_path_prefix(path, app_dir.as_str()) {
                Some(rel) => crate::paths::join(base.as_str(), rel.as_str()),
                None => path.to_owned(),
            }
        },
    };
    let mut app = app;
    app.primary_config = Some(resolved);
    shared.apps.insert(app_name.to_owned(), app);
    Ok(())
}

/// Whether `v` holds `x`.
pub open spec fn holds(v: Seq<String>, x: Seq<char>) -> bool {
    exists|i: int| 0 <= i < v.len() && (#[trigger] v[i])@ == x
}

fn vec_holds(v: &Vec<String>, x: &str) -> (r: bool)
    ensures
        r == holds(v@, x@),
{
    let mut i: usize = 0;
    while i < v.len()
        invariant
            i <= v@.len(),
            forall|j: int| 0 <= j < i ==> (#[trigger] v@[j])@ != x@,
        decreases v@.len() - i,
    {
        if crate::text::str_eq(v[i].as_str(), x) {
            return true;
        }
        i = i + 1;
    }
    false
}

/// `v` without the entries equal to `x`, in order.
pub open spec fn without(v: Seq<String>, x: Seq<char>) -> Seq<String>
    decreases v.len(),
{
    if v.len() == 0 {
        Seq::empty()
    } else {
        let rest = without(v.drop_last(), x);
        if v.last()@ == x {
            rest
        } else {
            rest.push(v.last())
        }
    }
}

fn vec_without(v: Vec<String>, x: &str) -> (r: Vec<String>)
    ensures
        r@ == without(v@, x@),
{
    let mut out: Vec<String> = Vec::new();
    let mut i: usize = 0;
    while i < v.len()
        invariant
            i <= v@.len(),
            out@ == without(v@.take(i as int), x@),
        decreases v@.len() - i,
    {
        proof {
            assert(v@.take(i + 1).drop_last() =~= v@.take(i as int));
        }
        if !crate::text::str_eq(v[i].as_str(), x) {
            out.push(v[i].clone());
        }
        i = i + 1;
    }
    assert(v@.take(v@.len() as int) =~= v@);
    out
}

/// How a pattern change went wrong: a bad app name or an unknown app.
pub open spec fn pattern_issue(app: Seq<char>, apps: Seq<(Seq<char>, Application)>) -> Option<OpIssue> {
    if name_problem(app) is Some {
        Some(OpIssue::Name(name_problem(app)->0))
    } else if !has_key(apps, app) {
        Some(OpIssue::AppNotFound(app))
    } else {
        None
    }
}

/// Adds an ignore pattern: to app `app` when given (unless it already has it), else to
/// the global patterns. Returns whether anything changed. On an error nothing changes.
pub fn add_ignore(app: Option<&str>, pattern: &str, shared: &mut SharedAppConfig) -> (r: Result<bool, OpError>)
    ensures
        match app {
            None => r == Ok::<bool, OpError>(!old(shared).ignored@.contains(pattern@)) && gains(
                old(shared).ignored@,
                final(shared).ignored@,
                pattern@,
            ) && final(shared).apps == old(shared).apps,
            Some(a) => match r {
                Err(e) => pattern_issue(a@, old(shared).apps@) == Some(e@) && *final(shared) == *old(shared),
                Ok(changed) => {
                    &&& pattern_issue(a@, old(shared).apps@) is None
                    &&& only_changed(old(shared).apps@, final(shared).apps@, a@)
                    &&& map_get(old(shared).apps@, a@) matches Some(x)
                    &&& map_get(final(shared).apps@, a@) matches Some(y)
                    &&& changed == !holds(x.ignore@, pattern@)
                    &&& y.ignore@ == if changed {
                        x.ignore@.push(y.ignore@.last())
                    } else {
                        x.ignore@
                    }
                    &&& changed ==> y.ignore@.last()@ == pattern@
                    &&& y.primary_config == x.primary_config && y.on_profiles == x.on_profiles && y.is_dir == x.is_dir
                    &&& final(shared).ignored == old(shared).ignored
                },
            },
        },
        final(shared).profiles == old(shared).profiles,
        final(shared).remote == old(shared).remote,
{
    match app {
        None => {
            let added = shared.ignored.insert(pattern.to_owned());
            Ok(added)
        },
        Some(name) => {
            if let Err(e) = validate_app_name(name) {
                return Err(OpError::Name(e));
            }
            if !shared.apps.contains_key(name) {
                return Err(OpError::AppNotFound(name.to_owned()));
            }
            let entry = match shared.apps.remove(name) {
                Some(x) => x,
                None => return Err(OpError::AppNotFound(name.to_owned())),
            };
            let mut entry = entry;
            let changed = if !vec_holds(&entry.ignore, pattern) {
                entry.ignore.push(pattern.to_owned());
                true
            } else {
                false
            };
            shared.apps.insert(name.to_owned(), entry);
            Ok(changed)
        },
    }
}

/// Removes an ignore pattern: from app `app` when given (every copy of it; this counts as
/// a change), else from the global patterns. Returns whether anything changed. On an
/// error nothing changes.
pub fn remove_ignore(app: Option<&str>, pattern: &str, shared: &mut SharedAppConfig) -> (r: Result<bool, OpError>)
    ensures
        match app {
            None => r == Ok::<bool, OpError>(old(shared).ignored@.contains(pattern@)) && loses(
                old(shared).ignored@,
                final(shared).ignored@,
                pattern@,
            ) && final(shared).apps == old(shared).apps,
            Some(a) => match r {
                Err(e) => pattern_issue(a@, old(shared).apps@) == Some(e@) && *final(shared) == *old(shared),
                Ok(changed) => {
                    &&& changed
                    &&& pattern_issue(a@, old(shared).apps@) is None
                    &&& only_changed(old(shared).apps@, final(shared).apps@, a@)
                    &&& map_get(old(shared).apps@, a@) matches Some(x)
                    &&& map_get(final(shared).apps@, a@) matches Some(y)
                    &&& y.ignore@ == without(x.ignore@, pattern@)
                    &&& y.primary_config == x.primary_config && y.on_profiles == x.on_profiles && y.is_dir == x.is_dir
                    &&& final(shared).ignored == old(shared).ignored
                },
            },
        },
        final(shared).profiles == old(shared).profiles,
        final(shared).remote == old(shared).remote,
{
    match app {
        None => {
            let removed = shared.ignored.remove(pattern);
            Ok(removed)
        },
        Some(name) => {
            if let Err(e) = validate_app_name(name) {
                return Err(OpError::Name(e));
            }
            if !shared.apps.contains_key(name) {
                return Err(OpError::AppNotFound(name.to_owned()));
            }
            let entry = match shared.apps.remove(name) {
                Some(x) => x,
                None => return Err(OpError::AppNotFound(name.to_owned())),
            };
            let mut entry = entry;
            let kept = vec_without(entry.ignore, pattern);
            entry.ignore = kept;
            shared.apps.insert(name.to_owned(), entry);
            Ok(true)
        },
    }
}

// ------------------------------------------------------------------
// Orphans
// ------------------------------------------------------------------

/// The last position before `n` where `names` holds `k` (-1 when there is none).
pub open spec fn last_index(names: Seq<String>, k: Seq<char>, n: int) -> int
    decreases n,
{
    if n <= 0 {
        -1
    } else if names[n - 1]@ == k {
        n - 1
    } else {
        last_index(names, k, n - 1)
    }
}

/// The first `n` names were adopted into profile `active`: each is registered as an app
/// on that profile only (with the kind given by its last occurrence) and listed by the
/// profile; nothing else changed.
pub open spec fn adopted(
    old_apps: Seq<(Seq<char>, Application)>,
    new_apps: Seq<(Seq<char>, Application)>,
    old_profiles: Seq<(Seq<char>, Profile)>,
    new_profiles: Seq<(Seq<char>, Profile)>,
    active: Seq<char>,
    names: Seq<String>,
    dirs: Seq<bool>,
    n: int,
) -> bool {
    &&& forall|k: Seq<char>| last_index(names, k, n) >= 0 ==> (#[trigger] map_get(new_apps, k) matches Some(a)
        && a.primary_config is None && a.on_profiles@ == seq![active] && a.is_dir == dirs[last_index(names, k, n)]
        && a.ignore@.len() == 0)
    &&& forall|k: Seq<char>| last_index(names, k, n) < 0 ==> #[trigger] map_get(new_apps, k) == map_get(old_apps, k)
    &&& only_changed(old_profiles, new_profiles, active)
    &&& match map_get(old_profiles, active) {
        None => map_get(new_profiles, active) is None,
        Some(p) => map_get(new_profiles, active) matches Some(q) && q.app_sources@ == p.app_sources@ && forall|x: Seq<char>|
            #[trigger] q.apps@.contains(x) == (p.apps@.contains(x) || last_index(names, x, n) >= 0),
    }
}

proof fn lemma_last_index_bounds(names: Seq<String>, k: Seq<char>, n: int)
    requires
        0 <= n <= names.len(),
    ensures
        -1 <= last_index(names, k, n) < n,
        last_index(names, k, n) >= 0 ==> names[last_index(names, k, n)]@ == k,
    decreases n,
{
    if n > 0 && names[n - 1]@ != k {
        lemma_last_index_bounds(names, k, n - 1);
    }
}

/// Adopts orphaned files into the active profile: each of `names` (paired with
/// `is_dirs`) becomes an app of the active profile only. Returns the number of names.
/// Stops at the first invalid name, with the names before it adopted.
pub fn adopt_orphans(names: &[String], is_dirs: &[bool], shared: &mut SharedAppConfig, local: &LocalAppConfig) -> (r: Result<usize, OpError>)
    ensures
        ({
            let m = if names@.len() < is_dirs@.len() { names@.len() as int } else { is_dirs@.len() as int };
            let active = local.active_profile@;
            match r {
                Ok(n) => {
                    &&& n == names@.len()
                    &&& name_problem(active) is None
                    &&& forall|i: int| 0 <= i < m ==> name_problem(#[trigger] names@[i]@) is None
                    &&& adopted(old(shared).apps@, final(shared).apps@, old(shared).profiles@, final(shared).profiles@, active, names@, is_dirs@, m)
                },
                Err(e) => if name_problem(active) is Some {
                    e@ == OpIssue::Name(name_problem(active)->0) && *final(shared) == *old(shared)
                } else {
                    exists|j: int| #![trigger names@[j]] 0 <= j < m && name_problem(names@[j]@) is Some && e@ == OpIssue::Name(
                        name_problem(names@[j]@)->0,
                    ) && (forall|i: int| 0 <= i < j ==> name_problem(#[trigger] names@[i]@) is None) && adopted(
                        old(shared).apps@,
                        final(shared).apps@,
                        old(shared).profiles@,
                        final(shared).profiles@,
                        active,
                        names@,
                        is_dirs@,
                        j,
                    )
                },
            }
        }),
        final(shared).ignored == old(shared).ignored,
        final(shared).remote == old(shared).remote,
{
    let profile_name = local.active_profile.as_str();
    if let Err(e) = validate_profile_name(profile_name) {
        return Err(OpError::Name(e));
    }
    let m = if names.len() < is_dirs.len() {
        names.len()
    } else {
        is_dirs.len()
    };
    let mut i: usize = 0;
    while i < m
        invariant
            i <= m,
            m <= names@.len(),
            m <= is_dirs@.len(),
            m == if names@.len() < is_dirs@.len() { names@.len() as int } else { is_dirs@.len() as int },
            profile_name@ == local.active_profile@,
            name_problem(profile_name@) is None,
            forall|j: int| 0 <= j < i ==> name_problem(#[trigger] names@[j]@) is None,
            adopted(old(shared).apps@, shared.apps@, old(shared).profiles@, shared.profiles@, profile_name@, names@, is_dirs@, i as int),
            shared.ignored == old(shared).ignored,
            shared.remote == old(shared).remote,
        decreases m - i,
    {
        let name = &names[i];
        if let Err(e) = validate_app_name(name.as_str()) {
            assert(name_problem(names@[i as int]@) is Some);
            return Err(OpError::Name(e));
        }
        let mut on = StrSet::new();
        on.insert(profile_name.to_owned());
        proof {
            assert(on@.contains(profile_name@));
            assert(on@ =~= seq![profile_name@]);
        }
        let ghost before_apps = shared.apps@;
        let ghost before_profiles = shared.profiles@;
        shared.apps.insert(
            name.clone(),
            Application { primary_config: None, on_profiles: on, is_dir: is_dirs[i], ignore: Vec::new() },
        );
        add_app_to_profile(&mut shared.profiles, profile_name, name.as_str());
        proof {
            assert forall|k: Seq<char>| #[trigger] last_index(names@, k, i + 1) == if names@[i as int]@ == k {
                i as int
            } else {
                last_index(names@, k, i as int)
            } by {}
            lemma_last_index_bounds(names@, name@, i as int);
        }
        i = i + 1;
    }
    Ok(names.len())
}

// ------------------------------------------------------------------
// Messages
// ------------------------------------------------------------------

/// What a path problem is called in a message.
pub open spec fn path_error_text(e: PathError) -> Seq<char> {
    match e {
        PathError::ParentComponent => "path must not contain '..' components"@,
        PathError::OutsideHome => "path must be inside the home directory"@,
    }
}

/// What a name problem is called in a message.
pub open spec fn name_error_text(e: NameError) -> Seq<char> {
    match e {
        NameError::Empty => "name must not be empty"@,
        NameError::DotName => "name must not be '.' or '..'"@,
        NameError::HasSeparator => "name must not contain '/', '\\' or NUL"@,
    }
}

/// The message shown for a refused operation.
pub open spec fn op_error_text(e: OpIssue) -> Seq<char> {
    match e {
        OpIssue::Path(p) => path_error_text(p),
        OpIssue::Name(n) => name_error_text(n),
        OpIssue::PathMissing(p) => "Path '"@ + p + "' does not exist."@,
        OpIssue::AlreadyManaged(a) => "App '"@ + a + "' already managed."@,
        OpIssue::NoLinkPath(a) => "No link path for '"@ + a + "'."@,
        OpIssue::ProfileExists(p) => "Profile '"@ + p + "' already exists."@,
        OpIssue::SourceProfileNotFound(p) => "Source profile '"@ + p + "' not found."@,
        OpIssue::ProfileMissing(p) => "Profile '"@ + p + "' does not exist."@,
        OpIssue::ImportFromSelf => "Cannot import from the same profile."@,
        OpIssue::AppNotInProfile { app, profile } => "App '"@ + app + "' not found in profile '"@ + profile + "'."@,
        OpIssue::AlreadyInProfile { app, profile } => "App '"@ + app + "' is already in profile '"@ + profile + "'."@,
        OpIssue::TargetProfileNotFound(p) => "Target profile '"@ + p + "' not found."@,
        OpIssue::CopyToSelf => "Cannot copy to the same profile."@,
        OpIssue::NotInActiveProfile { app, profile } => "App '"@ + app + "' not found in active profile '"@ + profile + "'."@,
        OpIssue::AppNotFound(a) => "App '"@ + a + "' not found."@,
    }
}

/// The shared config the setup wizard starts from, with profile `name` added (empty): the
/// existing config, where a given remote replaces the recorded one (refused when the
/// profile exists), or a new config with no apps and no ignore patterns.
pub fn wizard_config(existing: Option<SharedAppConfig>, name: &str, remote: Option<String>) -> (r: Result<SharedAppConfig, OpError>)
    ensures
        match existing {
            Some(c) => if has_key(c.profiles@, name@) {
                r matches Err(OpError::ProfileExists(p)) && p@ == name@
            } else {
                r matches Ok(n) && {
                    &&& n.apps == c.apps
                    &&& n.ignored == c.ignored
                    &&& n.remote == (if remote is Some {
                        remote
                    } else {
                        c.remote
                    })
                    &&& forall|k: Seq<char>| #[trigger] has_key(n.profiles@, k) == (has_key(c.profiles@, k) || k == name@)
                    &&& forall|k: Seq<char>| k != name@ ==> #[trigger] map_get(n.profiles@, k) == map_get(c.profiles@, k)
                    &&& map_get(n.profiles@, name@) matches Some(q) && q.apps@.len() == 0 && q.app_sources@.len() == 0
                }
            },
            None => r matches Ok(n) && {
                &&& n.apps@.len() == 0
                &&& n.ignored@.len() == 0
                &&& n.remote == remote
                &&& forall|k: Seq<char>| #[trigger] has_key(n.profiles@, k) == (k == name@)
                &&& map_get(n.profiles@, name@) matches Some(q) && q.apps@.len() == 0 && q.app_sources@.len() == 0
            },
        },
{
    match existing {
        Some(mut c) => {
            if c.profiles.contains_key(name) {
                return Err(OpError::ProfileExists(name.to_owned()));
            }
            c.profiles.insert(name.to_owned(), Profile::empty());
            if remote.is_some() {
                c.remote = remote;
            }
            Ok(c)
        },
        None => {
            let mut profiles: StrMap<Profile> = StrMap::new();
            profiles.insert(name.to_owned(), Profile::empty());
            Ok(SharedAppConfig { remote, profiles, apps: StrMap::new(), ignored: StrSet::new() })
        },
    }
}

fn quoted(before: &str, name: &str, after: &str) -> (r: String)
    ensures
        r@ == before@ + name@ + after@,
{
    let mut r = concat(before, name);
    crate::text::append_str(&mut r, after);
    r
}

impl OpError {
    /// The message shown for this error.
    pub fn message(&self) -> (r: String)
        ensures
            r@ == op_error_text(self@),
    {
        match self {
            OpError::Path(PathError::ParentComponent) => "path must not contain '..' components".to_owned(),
            OpError::Path(PathError::OutsideHome) => "path must be inside the home directory".to_owned(),
            OpError::Name(NameError::Empty) => "name must not be empty".to_owned(),
            OpError::Name(NameError::DotName) => "name must not be '.' or '..'".to_owned(),
            OpError::Name(NameError::HasSeparator) => "name must not contain '/', '\\' or NUL".to_owned(),
            OpError::PathMissing(p) => quoted("Path '", p.as_str(), "' does not exist."),
            OpError::AlreadyManaged(a) => quoted("App '", a.as_str(), "' already managed."),
            OpError::NoLinkPath(a) => quoted("No link path for '", a.as_str(), "'."),
            OpError::ProfileExists(p) => quoted("Profile '", p.as_str(), "' already exists."),
            OpError::SourceProfileNotFound(p) => quoted("Source profile '", p.as_str(), "' not found."),
            OpError::ProfileMissing(p) => quoted("Profile '", p.as_str(), "' does not exist."),
            OpError::ImportFromSelf => "Cannot import from the same profile.".to_owned(),
            OpError::AppNotInProfile { app, profile } => {
                let mut r = quoted("App '", app.as_str(), "' not found in profile '");
                crate::text::append_str(&mut r, profile.as_str());
                crate::text::append_str(&mut r, "'.");
                r
            },
            OpError::AlreadyInProfile { app, profile } => {
                let mut r = quoted("App '", app.as_str(), "' is already in profile '");
                crate::text::append_str(&mut r, profile.as_str());
                crate::text::append_str(&mut r, "'.");
                r
            },
            OpError::TargetProfileNotFound(p) => quoted("Target profile '", p.as_str(), "' not found."),
            OpError::CopyToSelf => "Cannot copy to the same profile.".to_owned(),
            OpError::NotInActiveProfile { app, profile } => {
                let mut r = quoted("App '", app.as_str(), "' not found in active profile '");
                crate::text::append_str(&mut r, profile.as_str());
                crate::text::append_str(&mut r, "'.");
                r
            },
            OpError::AppNotFound(a) => quoted("App '", a.as_str(), "' not found."),
        }
    }
}

} // verus!
