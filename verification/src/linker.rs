//! Where managed files live inside roost and what to do with the links that point to
//! them: the decisions behind ingesting, restoring, checking and switching links. The
//! file system itself is read and changed by the caller, which hands in what it found.
use vstd::prelude::*;

use crate::app::{profile_dir, Application, LocalAppConfig, Profile, SharedAppConfig};
use crate::collections::map_get;
use crate::paths::{join, path_components, path_join, path_rest, same_path, strip_path_prefix};
use crate::text::{append_str, chars_of, concat};

verus! {

/// Directory of roost holding the apps that are single files.
pub const MISC_DIR_NAME: &'static str = "misc";

/// Directory of roost holding backups of replaced files.
pub const BACKUP_DIR_NAME: &'static str = ".backups";

/// Where an app lives within a roost (or profile) directory: a directory app under its
/// own name, a single-file app under `misc/`.
pub open spec fn app_dest_of(roost: Seq<char>, name: Seq<char>, is_dir: bool) -> Seq<char> {
    if is_dir {
        path_join(roost, name)
    } else {
        path_join(path_join(roost, "misc"@), name)
    }
}

/// Resolves where an app lives within the roost directory.
pub fn app_dest(roost_dir: &str, app_name: &str, is_dir: bool) -> (r: String)
    ensures
        r@ == app_dest_of(roost_dir@, app_name@, is_dir),
{
    if is_dir {
        join(roost_dir, app_name)
    } else {
        let misc = join(roost_dir, MISC_DIR_NAME);
        join(misc.as_str(), app_name)
    }
}

/// Why a path may not be taken into roost.
#[derive(Debug, Clone, Copy, PartialEq, Eq, Structural)]
pub enum PathError {
    /// The path goes up through a `..` component.
    ParentComponent,
    /// The path does not lie under the home directory.
    OutsideHome,
}

/// The first reason `path` may not be managed, for a home directory `home`.
pub open spec fn path_problem(path: Seq<char>, home: Seq<char>) -> Option<PathError> {
    if path_components(path).contains(seq!['.', '.']) {
        Some(PathError::ParentComponent)
    } else if path_rest(path, home) is None {
        Some(PathError::OutsideHome)
    } else {
        None
    }
}

/// Accepts only paths that lie under `home` without going through `..`.
pub fn validate_path_in_home(path: &str, home: &str) -> (r: Result<(), PathError>)
    ensures
        match r {
            Ok(()) => path_problem(path@, home@) is None,
            Err(e) => path_problem(path@, home@) == Some(e),
        },
{
    let comps = crate::paths::components(path);
    let mut i: usize = 0;
    while i < comps.len()
        invariant
            i <= comps@.len(),
            comps@.len() == path_components(path@).len(),
            forall|k: int| 0 <= k < comps@.len() ==> #[trigger] comps@[k]@ == path_components(path@)[k],
            forall|k: int| 0 <= k < i ==> path_components(path@)[k] != seq!['.', '.'],
        decreases comps@.len() - i,
    {
        let c = &comps[i];
        if c.len() == 2 && c[0] == '.' && c[1] == '.' {
            assert(path_components(path@)[i as int] =~= seq!['.', '.']);
            return Err(PathError::ParentComponent);
        }
        assert(path_components(path@)[i as int] != seq!['.', '.']) by {
            if path_components(path@)[i as int] == seq!['.', '.'] {
                assert(c@ =~= seq!['.', '.']);
            }
        }
        i = i + 1;
    }
    assert(!path_components(path@).contains(seq!['.', '.']));
    match strip_path_prefix(path, home) {
        Some(_) => Ok(()),
        None => Err(PathError::OutsideHome),
    }
}

/// What the caller found at an app's original location.
pub struct OriginState {
    /// Whether something exists there, following a symbolic link.
    pub exists: bool,
    /// Whether it is a symbolic link.
    pub is_symlink: bool,
    /// For a symbolic link that could be read, where it points.
    pub link_target: Option<String>,
}

/// How the link of one app looks on this device.
#[derive(Debug, Clone)]
pub enum LinkStatus {
    Linked { app: String, origin: String, target: String },
    Missing { app: String, origin: String, target: String },
    Broken { app: String, origin: String, actual: String, expected: String },
    Conflict { app: String, origin: String },
    NoLinkPath { app: String },
}

/// [`LinkStatus`] with its texts as character sequences.
pub ghost enum StatusView {
    Linked { app: Seq<char>, origin: Seq<char>, target: Seq<char> },
    Missing { app: Seq<char>, origin: Seq<char>, target: Seq<char> },
    Broken { app: Seq<char>, origin: Seq<char>, actual: Seq<char>, expected: Seq<char> },
    Conflict { app: Seq<char>, origin: Seq<char> },
    NoLinkPath { app: Seq<char> },
}

impl View for LinkStatus {
    type V = StatusView;

    open spec fn view(&self) -> StatusView {
        match self {
            LinkStatus::Linked { app, origin, target } => StatusView::Linked {
                app: app@,
                origin: origin@,
                target: target@,
            },
            LinkStatus::Missing { app, origin, target } => StatusView::Missing {
                app: app@,
                origin: origin@,
                target: target@,
            },
            LinkStatus::Broken { app, origin, actual, expected } => StatusView::Broken {
                app: app@,
                origin: origin@,
                actual: actual@,
                expected: expected@,
            },
            LinkStatus::Conflict { app, origin } => StatusView::Conflict { app: app@, origin: origin@ },
            LinkStatus::NoLinkPath { app } => StatusView::NoLinkPath { app: app@ },
        }
    }
}

/// An app of a profile that has a registered config and a place on this device.
#[derive(Debug, Clone)]
pub struct AppLink {
    pub app: String,
    /// Where the app's config lives on this device.
    pub origin: String,
    /// Where the app's files live in the profile directory.
    pub dest: String,
    pub is_dir: bool,
}

/// One app of a profile, and whether it can be linked.
#[derive(Debug, Clone)]
pub enum LinkEntry {
    /// Listed in the profile but not registered in the config.
    UnknownApp(String),
    /// Registered, but with no place on this device.
    NoLinkPath(String),
    Link(AppLink),
}

/// `e` is what the plan says of app `a` of the profile whose directory is `pdir`.
pub open spec fn entry_for(
    e: LinkEntry,
    apps: Seq<(Seq<char>, Application)>,
    links: Seq<(Seq<char>, String)>,
    pdir: Seq<char>,
    a: Seq<char>,
) -> bool {
    match map_get(apps, a) {
        None => e matches LinkEntry::UnknownApp(n) && n@ == a,
        Some(app) => match map_get(links, a) {
            None => e matches LinkEntry::NoLinkPath(n) && n@ == a,
            Some(origin) => e matches LinkEntry::Link(l) && l.app@ == a && l.origin == origin
                && l.dest@ == app_dest_of(pdir, a, app.is_dir) && l.is_dir == app.is_dir,
        },
    }
}

/// For each app of `profile_name` (in sorted order), whether and where it is linked;
/// `None` when the profile does not exist.
pub fn link_plan(config: &SharedAppConfig, local: &LocalAppConfig, roost_dir: &str, profile_name: &str) -> (r: Option<Vec<LinkEntry>>)
    ensures
        match map_get(config.profiles@, profile_name@) {
            None => r is None,
            Some(p) => r matches Some(v) && v@.len() == p.apps@.len() && forall|i: int|
                0 <= i < v@.len() ==> #[trigger] entry_for(
                    v@[i],
                    config.apps@,
                    local.link_paths@,
                    path_join(roost_dir@, profile_name@),
                    p.apps@[i],
                ),
        },
{
    let profile = match config.profiles.get(profile_name) {
        Some(p) => p,
        None => return None,
    };
    let pdir = profile_dir(roost_dir, profile_name);
    let mut out: Vec<LinkEntry> = Vec::new();
    let mut i: usize = 0;
    while i < profile.apps.len()
        invariant
            i <= profile.apps@.len(),
            map_get(config.profiles@, profile_name@) == Some(*profile),
            pdir@ == path_join(roost_dir@, profile_name@),
            out@.len() == i,
            forall|k: int| 0 <= k < i ==> #[trigger] entry_for(
                out@[k],
                config.apps@,
                local.link_paths@,
                pdir@,
                profile.apps@[k],
            ),
        decreases profile.apps@.len() - i,
    {
        let name = profile.apps.at(i);
        let e = match config.apps.get(name.as_str()) {
            None => LinkEntry::UnknownApp(name.clone()),
            Some(app) => match local.link_paths.get(name.as_str()) {
                None => LinkEntry::NoLinkPath(name.clone()),
                Some(origin) => LinkEntry::Link(
                    AppLink {
                        app: name.clone(),
                        origin: origin.clone(),
                        dest: app_dest(pdir.as_str(), name.as_str(), app.is_dir),
                        is_dir: app.is_dir,
                    },
                ),
            },
        };
        out.push(e);
        i = i + 1;
    }
    Some(out)
}

/// The status of one linkable app given what was found at its origin.
pub open spec fn status_of(l: AppLink, s: OriginState) -> StatusView {
    if !s.exists {
        StatusView::Missing { app: l.app@, origin: l.origin@, target: l.dest@ }
    } else if s.is_symlink {
        match s.link_target {
            Some(t) => if path_components(t@) == path_components(l.dest@) {
                StatusView::Linked { app: l.app@, origin: l.origin@, target: l.dest@ }
            } else {
                StatusView::Broken { app: l.app@, origin: l.origin@, actual: t@, expected: l.dest@ }
            },
            None => StatusView::Broken {
                app: l.app@,
                origin: l.origin@,
                actual: Seq::empty(),
                expected: l.dest@,
            },
        }
    } else {
        StatusView::Conflict { app: l.app@, origin: l.origin@ }
    }
}

/// The statuses reported for a plan: nothing for an unknown app, a missing link path as
/// such, and the status of each linkable app.
pub open spec fn statuses_of(plan: Seq<LinkEntry>, found: Seq<OriginState>) -> Seq<StatusView>
    decreases plan.len(),
{
    if plan.len() == 0 {
        Seq::empty()
    } else {
        let rest = statuses_of(plan.drop_last(), found.take(plan.len() - 1));
        match plan.last() {
            LinkEntry::UnknownApp(_) => rest,
            LinkEntry::NoLinkPath(a) => rest.push(StatusView::NoLinkPath { app: a@ }),
            LinkEntry::Link(l) => rest.push(status_of(l, found[plan.len() - 1])),
        }
    }
}

fn status_for(l: &AppLink, s: &OriginState) -> (r: LinkStatus)
    ensures
        r@ == status_of(*l, *s),
{
    if !s.exists {
        LinkStatus::Missing { app: l.app.clone(), origin: l.origin.clone(), target: l.dest.clone() }
    } else if s.is_symlink {
        match &s.link_target {
            Some(t) => {
                if same_path(t.as_str(), l.dest.as_str()) {
                    LinkStatus::Linked { app: l.app.clone(), origin: l.origin.clone(), target: l.dest.clone() }
                } else {
                    LinkStatus::Broken {
                        app: l.app.clone(),
                        origin: l.origin.clone(),
                        actual: t.clone(),
                        expected: l.dest.clone(),
                    }
                }
            },
            None => {
                let empty = String::new();
                LinkStatus::Broken {
                    app: l.app.clone(),
                    origin: l.origin.clone(),
                    actual: empty,
                    expected: l.dest.clone(),
                }
            },
        }
    } else {
        LinkStatus::Conflict { app: l.app.clone(), origin: l.origin.clone() }
    }
}

/// Reports the link status of each app of a plan, given what was found at the origin of
/// each entry (`found[i]` for `plan[i]`; unused for entries that are not linkable).
pub fn check_links(plan: &[LinkEntry], found: &[OriginState]) -> (r: Vec<LinkStatus>)
    requires
        found@.len() == plan@.len(),
    ensures
        r@.map_values(|s: LinkStatus| s@) == statuses_of(plan@, found@),
{
    let mut out: Vec<LinkStatus> = Vec::new();
    let mut i: usize = 0;
    while i < plan.len()
        invariant
            i <= plan@.len(),
            found@.len() == plan@.len(),
            out@.map_values(|s: LinkStatus| s@) == statuses_of(plan@.take(i as int), found@.take(i as int)),
        decreases plan@.len() - i,
    {
        proof {
            assert(plan@.take(i + 1).drop_last() =~= plan@.take(i as int));
            assert(found@.take(i + 1).take(i as int) =~= found@.take(i as int));
            assert(plan@.take(i + 1).last() == plan@[i as int]);
        }
        match &plan[i] {
            LinkEntry::UnknownApp(_) => {},
            LinkEntry::NoLinkPath(a) => {
                out.push(LinkStatus::NoLinkPath { app: a.clone() });
            },
            LinkEntry::Link(l) => {
                let st = status_for(l, &found[i]);
                out.push(st);
            },
        }
        assert(out@.map_values(|s: LinkStatus| s@) =~= statuses_of(plan@.take(i + 1), found@.take(i + 1)));
        i = i + 1;
    }
    assert(plan@.take(plan@.len() as int) =~= plan@);
    assert(found@.take(found@.len() as int) =~= found@);
    out
}

/// [`AppLink`] with its texts as character sequences.
pub ghost struct LinkView {
    pub app: Seq<char>,
    pub origin: Seq<char>,
    pub dest: Seq<char>,
    pub is_dir: bool,
}

impl View for AppLink {
    type V = LinkView;

    open spec fn view(&self) -> LinkView {
        LinkView { app: self.app@, origin: self.origin@, dest: self.dest@, is_dir: self.is_dir }
    }
}

/// The linkable apps among `names` (those registered and with a place on this device),
/// for the profile directory `pdir`, in order.
pub open spec fn links_for(
    apps: Seq<(Seq<char>, Application)>,
    links: Seq<(Seq<char>, String)>,
    pdir: Seq<char>,
    names: Seq<Seq<char>>,
) -> Seq<LinkView>
    decreases names.len(),
{
    if names.len() == 0 {
        Seq::empty()
    } else {
        let rest = links_for(apps, links, pdir, names.drop_last());
        let a = names.last();
        match map_get(apps, a) {
            Some(app) => match map_get(links, a) {
                Some(origin) => rest.push(
                    LinkView { app: a, origin: origin@, dest: app_dest_of(pdir, a, app.is_dir), is_dir: app.is_dir },
                ),
                None => rest,
            },
            None => rest,
        }
    }
}

/// The linkable apps of profile `profile_name`; `None` when the profile does not exist.
pub fn profile_links(config: &SharedAppConfig, local: &LocalAppConfig, roost_dir: &str, profile_name: &str) -> (r: Option<Vec<AppLink>>)
    ensures
        match map_get(config.profiles@, profile_name@) {
            None => r is None,
            Some(p) => r matches Some(v) && v@.map_values(|l: AppLink| l@) == links_for(
                config.apps@,
                local.link_paths@,
                path_join(roost_dir@, profile_name@),
                p.apps@,
            ),
        },
{
    let profile = match config.profiles.get(profile_name) {
        Some(p) => p,
        None => return None,
    };
    let pdir = profile_dir(roost_dir, profile_name);
    let mut out: Vec<AppLink> = Vec::new();
    let mut i: usize = 0;
    while i < profile.apps.len()
        invariant
            i <= profile.apps@.len(),
            pdir@ == path_join(roost_dir@, profile_name@),
            out@.map_values(|l: AppLink| l@) == links_for(config.apps@, local.link_paths@, pdir@, profile.apps@.take(i as int)),
        decreases profile.apps@.len() - i,
    {
        proof {
            assert(profile.apps@.take(i + 1).drop_last() =~= profile.apps@.take(i as int));
        }
        let name = profile.apps.at(i);
        match config.apps.get(name.as_str()) {
            None => {},
            Some(app) => match local.link_paths.get(name.as_str()) {
                None => {},
                Some(origin) => {
                    out.push(
                        AppLink {
                            app: name.clone(),
                            origin: origin.clone(),
                            dest: app_dest(pdir.as_str(), name.as_str(), app.is_dir),
                            is_dir: app.is_dir,
                        },
                    );
                },
            },
        }
        assert(out@.map_values(|l: AppLink| l@) =~= links_for(config.apps@, local.link_paths@, pdir@, profile.apps@.take(i + 1)));
        i = i + 1;
    }
    assert(profile.apps@.take(profile.apps@.len() as int) =~= profile.apps@);
    Some(out)
}

/// Why a link operation cannot go on.
#[derive(Debug, Clone)]
pub enum LinkError {
    OriginMissing(String),
    OriginIsSymlink(String),
    NotInRoost(String),
    WrongTarget { origin: String, target: String },
    OriginIsReal(String),
    NotASymlink(String),
    UnexpectedTarget { origin: String, target: String, expected: String },
    ProfileNotFound(String),
    ActiveProfileMissing(String),
    SourceMissing(String),
    TargetExists(String),
    SourceIsSymlink { path: String, profile: String },
}

/// The message shown for a link error.
pub open spec fn link_error_text(e: LinkError) -> Seq<char> {
    match e {
        LinkError::OriginMissing(p) => "origin path does not exist: "@ + p@,
        LinkError::OriginIsSymlink(p) => "origin already a symlink: "@ + p@,
        LinkError::NotInRoost(p) => "app files not found in roost: "@ + p@,
        LinkError::WrongTarget { origin, target } => "origin exists as symlink to wrong target: "@ + origin@ + " -> "@ + target@,
        LinkError::OriginIsReal(p) => "origin exists as real file/dir (use ingest instead): "@ + p@,
        LinkError::NotASymlink(p) => "origin is not a symlink: "@ + p@,
        LinkError::UnexpectedTarget { origin, target, expected } => "symlink points to unexpected target: "@ + origin@ + " -> "@ + target@ + " (expected "@ + expected@ + ")"@,
        LinkError::ProfileNotFound(n) => "target profile '"@ + n@ + "' does not exist"@,
        LinkError::ActiveProfileMissing(n) => "active profile '"@ + n@ + "' not found"@,
        LinkError::SourceMissing(p) => "source path does not exist: "@ + p@,
        LinkError::TargetExists(p) => "target already exists: "@ + p@,
        LinkError::SourceIsSymlink { path, profile } => path@ + " in profile "@ + profile@ + " is a symlink (must import from source file)"@,
    }
}

impl LinkError {
    pub fn message(&self) -> (r: String)
        ensures
            r@ == link_error_text(*self),
    {
        match self {
            LinkError::OriginMissing(p) => concat("origin path does not exist: ", p.as_str()),
            LinkError::OriginIsSymlink(p) => concat("origin already a symlink: ", p.as_str()),
            LinkError::NotInRoost(p) => concat("app files not found in roost: ", p.as_str()),
            LinkError::WrongTarget { origin, target } => {
                let mut r = concat("origin exists as symlink to wrong target: ", origin.as_str());
                append_str(&mut r, " -> ");
                append_str(&mut r, target.as_str());
                r
            },
            LinkError::OriginIsReal(p) => concat("origin exists as real file/dir (use ingest instead): ", p.as_str()),
            LinkError::NotASymlink(p) => concat("origin is not a symlink: ", p.as_str()),
            LinkError::UnexpectedTarget { origin, target, expected } => {
                let mut r = concat("symlink points to unexpected target: ", origin.as_str());
                append_str(&mut r, " -> ");
                append_str(&mut r, target.as_str());
                append_str(&mut r, " (expected ");
                append_str(&mut r, expected.as_str());
                append_str(&mut r, ")");
                r
            },
            LinkError::ProfileNotFound(n) => {
                let mut r = concat("target profile '", n.as_str());
                append_str(&mut r, "' does not exist");
                r
            },
            LinkError::ActiveProfileMissing(n) => {
                let mut r = concat("active profile '", n.as_str());
                append_str(&mut r, "' not found");
                r
            },
            LinkError::SourceMissing(p) => concat("source path does not exist: ", p.as_str()),
            LinkError::TargetExists(p) => concat("target already exists: ", p.as_str()),
            LinkError::SourceIsSymlink { path, profile } => {
                let mut r = concat(path.as_str(), " in profile ");
                append_str(&mut r, profile.as_str());
                append_str(&mut r, " is a symlink (must import from source file)");
                r
            },
        }
    }
}

/// A symbolic link found at `s` that points to `dest` (as a path).
pub open spec fn links_to(s: OriginState, dest: Seq<char>) -> bool {
    &&& s.is_symlink
    &&& s.link_target matches Some(t) && path_components(t@) == path_components(dest)
}

fn points_to(s: &OriginState, dest: &str) -> (r: bool)
    ensures
        r == links_to(*s, dest@),
{
    if !s.is_symlink {
        return false;
    }
    match &s.link_target {
        Some(t) => same_path(t.as_str(), dest),
        None => false,
    }
}

/// Before moving `origin` into roost: it must exist and must not be a symbolic link.
pub fn ingest_check(origin: &str, found: &OriginState) -> (r: Result<(), LinkError>)
    ensures
        !found.exists ==> (r matches Err(LinkError::OriginMissing(p)) && p@ == origin@),
        found.exists && found.is_symlink ==> (r matches Err(LinkError::OriginIsSymlink(p)) && p@ == origin@),
        found.exists && !found.is_symlink ==> r is Ok,
{
    if !found.exists {
        return Err(LinkError::OriginMissing(origin.to_owned()));
    }
    if found.is_symlink {
        return Err(LinkError::OriginIsSymlink(origin.to_owned()));
    }
    Ok(())
}

/// What restoring a link has to do.
#[derive(Debug, Clone, Copy, PartialEq, Eq, Structural)]
pub enum RestoreStep {
    /// The link is already there.
    AlreadyLinked,
    /// Create the parent directories and the link.
    CreateLink,
}

/// Restoring the link at `origin` to the roost copy at `dest`, which `dest_exists` says is
/// there; `found` is what is at `origin` (a symbolic link there was read).
pub fn restore_check(origin: &str, dest: &str, dest_exists: bool, found: &OriginState) -> (r: Result<RestoreStep, LinkError>)
    requires
        found.is_symlink ==> found.link_target is Some,
    ensures
        !dest_exists ==> (r matches Err(LinkError::NotInRoost(p)) && p@ == dest@),
        dest_exists && found.is_symlink && links_to(*found, dest@) ==> r == Ok::<RestoreStep, LinkError>(RestoreStep::AlreadyLinked),
        dest_exists && found.is_symlink && !links_to(*found, dest@) ==> (r matches Err(LinkError::WrongTarget { origin: o, target: t })
            && o@ == origin@ && Some(t) == found.link_target),
        dest_exists && !found.is_symlink && found.exists ==> (r matches Err(LinkError::OriginIsReal(p)) && p@ == origin@),
        dest_exists && !found.is_symlink && !found.exists ==> r == Ok::<RestoreStep, LinkError>(RestoreStep::CreateLink),
{
    if !dest_exists {
        return Err(LinkError::NotInRoost(dest.to_owned()));
    }
    if found.is_symlink {
        if points_to(found, dest) {
            return Ok(RestoreStep::AlreadyLinked);
        }
        let t = match &found.link_target {
            Some(t) => t.clone(),
            None => String::new(),
        };
        return Err(LinkError::WrongTarget { origin: origin.to_owned(), target: t });
    }
    if found.exists {
        return Err(LinkError::OriginIsReal(origin.to_owned()));
    }
    Ok(RestoreStep::CreateLink)
}

/// Before moving the roost copy back to `origin`: `origin` must be a symbolic link to
/// `dest` (a symbolic link there was read).
pub fn unlink_check(origin: &str, dest: &str, found: &OriginState) -> (r: Result<(), LinkError>)
    requires
        found.is_symlink ==> found.link_target is Some,
    ensures
        !found.is_symlink ==> (r matches Err(LinkError::NotASymlink(p)) && p@ == origin@),
        found.is_symlink && !links_to(*found, dest@) ==> (r matches Err(LinkError::UnexpectedTarget { origin: o, target: t, expected: e })
            && o@ == origin@ && Some(t) == found.link_target && e@ == dest@),
        links_to(*found, dest@) ==> r is Ok,
{
    if !found.is_symlink {
        return Err(LinkError::NotASymlink(origin.to_owned()));
    }
    if points_to(found, dest) {
        return Ok(());
    }
    let t = match &found.link_target {
        Some(t) => t.clone(),
        None => String::new(),
    };
    Err(LinkError::UnexpectedTarget { origin: origin.to_owned(), target: t, expected: dest.to_owned() })
}

/// When switching profiles, a link of the old profile is removed only where it still
/// points to the old profile's copy.
pub fn should_unlink(found: &OriginState, dest: &str) -> (r: bool)
    ensures
        r == links_to(*found, dest@),
{
    points_to(found, dest)
}

/// Directory of app `app` in profile `profile`.
pub fn profile_app_dir(roost_dir: &str, profile: &str, app: &str) -> (r: String)
    ensures
        r@ == path_join(path_join(roost_dir@, profile@), app@),
{
    let p = join(roost_dir, profile);
    join(p.as_str(), app)
}

/// Before linking an app of another profile into this one: the source must exist and be
/// the profile's own copy, and the target must not exist yet.
pub fn import_check(source_dir: &str, target_dir: &str, source_profile: &str, source_exists: bool, target_exists: bool, source_is_symlink: bool) -> (r: Result<(), LinkError>)
    ensures
        !source_exists ==> (r matches Err(LinkError::SourceMissing(p)) && p@ == source_dir@),
        source_exists && target_exists ==> (r matches Err(LinkError::TargetExists(p)) && p@ == target_dir@),
        source_exists && !target_exists && source_is_symlink ==> (r matches Err(LinkError::SourceIsSymlink { path, profile })
            && path@ == source_dir@ && profile@ == source_profile@),
        source_exists && !target_exists && !source_is_symlink ==> r is Ok,
{
    if !source_exists {
        return Err(LinkError::SourceMissing(source_dir.to_owned()));
    }
    if target_exists {
        return Err(LinkError::TargetExists(target_dir.to_owned()));
    }
    if source_is_symlink {
        return Err(LinkError::SourceIsSymlink { path: source_dir.to_owned(), profile: source_profile.to_owned() });
    }
    Ok(())
}

/// Before copying an app's files into another profile: the source must exist and the
/// target must not.
pub fn copy_check(source_dir: &str, target_dir: &str, source_exists: bool, target_exists: bool) -> (r: Result<(), LinkError>)
    ensures
        !source_exists ==> (r matches Err(LinkError::SourceMissing(p)) && p@ == source_dir@),
        source_exists && target_exists ==> (r matches Err(LinkError::TargetExists(p)) && p@ == target_dir@),
        source_exists && !target_exists ==> r is Ok,
{
    if !source_exists {
        return Err(LinkError::SourceMissing(source_dir.to_owned()));
    }
    if target_exists {
        return Err(LinkError::TargetExists(target_dir.to_owned()));
    }
    Ok(())
}

/// The links to take down and to put up when switching from `old_profile` to
/// `new_profile`; an error when the new profile does not exist.
pub fn switch_plan(old_profile: &str, new_profile: &str, config: &SharedAppConfig, local: &LocalAppConfig, roost_dir: &str) -> (r: Result<(Vec<AppLink>, Vec<AppLink>), LinkError>)
    ensures
        match map_get(config.profiles@, new_profile@) {
            None => r matches Err(LinkError::ProfileNotFound(n)) && n@ == new_profile@,
            Some(np) => r matches Ok((down, up)) && up@.map_values(|l: AppLink| l@) == links_for(
                config.apps@,
                local.link_paths@,
                path_join(roost_dir@, new_profile@),
                np.apps@,
            ) && down@.map_values(|l: AppLink| l@) == match map_get(config.profiles@, old_profile@) {
                Some(op) => links_for(config.apps@, local.link_paths@, path_join(roost_dir@, old_profile@), op.apps@),
                None => Seq::empty(),
            },
        },
{
    let up = match profile_links(config, local, roost_dir, new_profile) {
        Some(v) => v,
        None => return Err(LinkError::ProfileNotFound(new_profile.to_owned())),
    };
    let down = match profile_links(config, local, roost_dir, old_profile) {
        Some(v) => v,
        None => {
            let v: Vec<AppLink> = Vec::new();
            assert(v@.map_values(|l: AppLink| l@) =~= Seq::<LinkView>::empty());
            v
        },
    };
    Ok((down, up))
}

/// Makes `new_profile` the active profile of this device.
pub fn set_active_profile(local: &mut LocalAppConfig, new_profile: &str)
    ensures
        final(local).active_profile@ == new_profile@,
        final(local).os_info == old(local).os_info,
        final(local).link_paths == old(local).link_paths,
{
    local.active_profile = new_profile.to_owned();
}

/// What to do for one app of the active profile so that its link is in place.
pub enum EnsureStep {
    /// The app cannot be linked: report `note`.
    Skip { note: String },
    /// The link is already in place.
    InPlace,
    /// Put the link in place, after moving aside what is at the origin to `backup` (a
    /// symbolic link is moved; a file or directory is copied there and then removed).
    /// `notes` reports what was done, in order.
    Link { backup: Option<String>, notes: Vec<String> },
}

/// Where a conflicting origin of `app` is kept.
pub open spec fn conflict_backup_path(roost: Seq<char>, app: Seq<char>) -> Seq<char> {
    path_join(path_join(roost, ".backups"@), "conflict-"@ + app)
}

/// What [`ensure_step`] decides for `entry`, given what is at its origin.
pub open spec fn ensure_step_ok(r: EnsureStep, entry: LinkEntry, found: OriginState, roost: Seq<char>) -> bool {
    match entry {
        LinkEntry::UnknownApp(a) => r matches EnsureStep::Skip { note } && note@ == "SKIP: app '"@ + a@ + "' not found in config"@,
        LinkEntry::NoLinkPath(a) => r matches EnsureStep::Skip { note } && note@ == "SKIP: no link_path for '"@ + a@ + "'"@,
        LinkEntry::Link(l) => {
            let backup = conflict_backup_path(roost, l.app@);
            let linked = "LINKED: "@ + l.origin@ + " -> "@ + l.dest@;
            if links_to(found, l.dest@) {
                r is InPlace
            } else if found.is_symlink {
                r matches EnsureStep::Link { backup: Some(b), notes } && b@ == backup && notes@.len() == 2
                    && notes@[0]@ == "BACKED UP conflicting symlink: "@ + l.origin@ + " -> "@ + backup
                    && notes@[1]@ == linked
            } else if found.exists {
                r matches EnsureStep::Link { backup: Some(b), notes } && b@ == backup && notes@.len() == 2
                    && notes@[0]@ == "BACKED UP conflicting path: "@ + l.origin@ + " -> "@ + backup
                    && notes@[1]@ == linked
            } else {
                r matches EnsureStep::Link { backup: None, notes } && notes@.len() == 1 && notes@[0]@ == linked
            }
        },
    }
}

/// Decides how to put the link of one plan entry in place, given what is at its origin
/// (a symbolic link there was read).
pub fn ensure_step(entry: &LinkEntry, found: &OriginState, roost_dir: &str) -> (r: EnsureStep)
    requires
        found.is_symlink ==> found.link_target is Some,
    ensures
        ensure_step_ok(r, *entry, *found, roost_dir@),
{
    match entry {
        LinkEntry::UnknownApp(a) => {
            let mut note = concat("SKIP: app '", a.as_str());
            append_str(&mut note, "' not found in config");
            EnsureStep::Skip { note }
        },
        LinkEntry::NoLinkPath(a) => {
            let mut note = concat("SKIP: no link_path for '", a.as_str());
            append_str(&mut note, "'");
            EnsureStep::Skip { note }
        },
        LinkEntry::Link(l) => {
            if points_to(found, l.dest.as_str()) {
                return EnsureStep::InPlace;
            }
            let mut linked = concat("LINKED: ", l.origin.as_str());
            append_str(&mut linked, " -> ");
            append_str(&mut linked, l.dest.as_str());
            let mut notes: Vec<String> = Vec::new();
            if found.is_symlink || found.exists {
                let backups = join(roost_dir, BACKUP_DIR_NAME);
                let name = concat("conflict-", l.app.as_str());
                let backup = join(backups.as_str(), name.as_str());
                let mut note = if found.is_symlink {
                    concat("BACKED UP conflicting symlink: ", l.origin.as_str())
                } else {
                    concat("BACKED UP conflicting path: ", l.origin.as_str())
                };
                append_str(&mut note, " -> ");
                append_str(&mut note, backup.as_str());
                notes.push(note);
                notes.push(linked);
                EnsureStep::Link { backup: Some(backup), notes }
            } else {
                notes.push(linked);
                EnsureStep::Link { backup: None, notes }
            }
        },
    }
}

/// Once an app's origin is a link to its roost copy, making sure of the links leaves it
/// alone, and the doctor reports the link as good. (A link to a roost copy that is gone
/// is left alone too, but the doctor reports it missing.)
pub proof fn lemma_linked_app_is_settled(l: AppLink, found: OriginState, roost: Seq<char>, r: EnsureStep)
    requires
        found.exists,
        links_to(found, l.dest@),
        ensure_step_ok(r, LinkEntry::Link(l), found, roost),
    ensures
        r is InPlace,
        status_of(l, found) == (StatusView::Linked { app: l.app@, origin: l.origin@, target: l.dest@ }),
{
}

/// An entry found in a profile directory (or its `misc/` directory).
pub struct DirEntryInfo {
    pub name: String,
    pub is_dir: bool,
    pub path: String,
}

/// Files in a profile directory that no registered app claims.
#[derive(Debug, Clone)]
pub struct Orphan {
    pub profile: String,
    pub name: String,
    pub is_dir: bool,
    pub path: String,
}

/// A top-level entry of a profile directory that holds app files: not `misc` and not a
/// dot entry.
pub open spec fn is_app_entry(name: Seq<char>) -> bool {
    name != "misc"@ && !(name.len() > 0 && name[0] == '.')
}

/// `o` reports the entry `e` of profile `profile`.
pub open spec fn reports(o: Orphan, profile: Seq<char>, e: DirEntryInfo) -> bool {
    o.profile@ == profile && o.name == e.name && o.is_dir == e.is_dir && o.path == e.path
}

/// The entries that no app of `apps` claims, kept when `keep` holds of their name.
pub open spec fn unclaimed(apps: Seq<(Seq<char>, Application)>, entries: Seq<DirEntryInfo>, top: bool) -> Seq<DirEntryInfo>
    decreases entries.len(),
{
    if entries.len() == 0 {
        Seq::empty()
    } else {
        let rest = unclaimed(apps, entries.drop_last(), top);
        let e = entries.last();
        if (!top || is_app_entry(e.name@)) && map_get(apps, e.name@) is None {
            rest.push(e)
        } else {
            rest
        }
    }
}

fn collect_orphans(config: &SharedAppConfig, profile: &str, entries: &[DirEntryInfo], top: bool, out: &mut Vec<Orphan>)
    ensures
        final(out)@.len() == old(out)@.len() + unclaimed(config.apps@, entries@, top).len(),
        forall|k: int| 0 <= k < old(out)@.len() ==> final(out)@[k] == old(out)@[k],
        forall|k: int| 0 <= k < unclaimed(config.apps@, entries@, top).len() ==> #[trigger] reports(
            final(out)@[old(out)@.len() + k],
            profile@,
            unclaimed(config.apps@, entries@, top)[k],
        ),
{
    let ghost start = out@;
    let mut i: usize = 0;
    proof {
        reveal_strlit("misc");
    }
    while i < entries.len()
        invariant
            i <= entries@.len(),
            out@.len() == start.len() + unclaimed(config.apps@, entries@.take(i as int), top).len(),
            forall|k: int| 0 <= k < start.len() ==> out@[k] == start[k],
            forall|k: int| 0 <= k < unclaimed(config.apps@, entries@.take(i as int), top).len() ==> #[trigger] reports(
                out@[start.len() + k],
                profile@,
                unclaimed(config.apps@, entries@.take(i as int), top)[k],
            ),
            "misc"@ =~= seq!['m', 'i', 's', 'c'],
        decreases entries@.len() - i,
    {
        proof {
            assert(entries@.take(i + 1).drop_last() =~= entries@.take(i as int));
            assert(entries@.take(i + 1).last() == entries@[i as int]);
        }
        let e = &entries[i];
        let cs = chars_of(e.name.as_str());
        let is_misc = cs.len() == 4 && cs[0] == 'm' && cs[1] == 'i' && cs[2] == 's' && cs[3] == 'c';
        let dotted = cs.len() > 0 && cs[0] == '.';
        proof {
            if cs@.len() == 4 && cs@[0] == 'm' && cs@[1] == 'i' && cs@[2] == 's' && cs@[3] == 'c' {
                assert(cs@ =~= "misc"@);
            }
            if cs@ == "misc"@ {
                assert(cs@.len() == 4 && cs@[0] == 'm' && cs@[1] == 'i' && cs@[2] == 's' && cs@[3] == 'c');
            }
        }
        let skip = top && (is_misc || dotted);
        if !skip && !config.apps.contains_key(e.name.as_str()) {
            out.push(
                Orphan {
                    profile: profile.to_owned(),
                    name: e.name.clone(),
                    is_dir: e.is_dir,
                    path: e.path.clone(),
                },
            );
        }
        i = i + 1;
    }
    assert(entries@.take(entries@.len() as int) =~= entries@);
}

/// The orphans of profile `profile`: the app entries of its directory (`top`), then the
/// entries of its `misc/` directory (`misc`), that no registered app claims.
pub fn orphans_in_profile(config: &SharedAppConfig, profile: &str, top: &[DirEntryInfo], misc: &[DirEntryInfo]) -> (r: Vec<Orphan>)
    ensures
        r@.len() == unclaimed(config.apps@, top@, true).len() + unclaimed(config.apps@, misc@, false).len(),
        forall|k: int| 0 <= k < unclaimed(config.apps@, top@, true).len() ==> #[trigger] reports(
            r@[k],
            profile@,
            unclaimed(config.apps@, top@, true)[k],
        ),
        forall|k: int| 0 <= k < unclaimed(config.apps@, misc@, false).len() ==> #[trigger] reports(
            r@[unclaimed(config.apps@, top@, true).len() + k],
            profile@,
            unclaimed(config.apps@, misc@, false)[k],
        ),
{
    let mut out: Vec<Orphan> = Vec::new();
    collect_orphans(config, profile, top, true, &mut out);
    let ghost mid = out@;
    collect_orphans(config, profile, misc, false, &mut out);
    assert forall|k: int| 0 <= k < unclaimed(config.apps@, top@, true).len() implies #[trigger] reports(
        out@[k],
        profile@,
        unclaimed(config.apps@, top@, true)[k],
    ) by {
        assert(out@[k] == mid[k]);
        assert(mid[0 + k] == mid[k]);
    }
    out
}

} // verus!
