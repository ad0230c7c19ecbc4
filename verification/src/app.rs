//! The shared (synced) and local (per-device) configuration model.
use vstd::prelude::*;

use crate::collections::{has_key, map_get, StrMap, StrSet};
use crate::os_detect::OsInfo;
use crate::paths::{join, path_join};
use crate::text::{chars_of, concat, string_from_chars};

verus! {

/// Configuration shared by every device through git (`roost.toml`).
pub struct SharedAppConfig {
    pub remote: Option<String>,
    pub profiles: StrMap<Profile>,
    pub apps: StrMap<Application>,
    pub ignored: StrSet,
}

/// Configuration of this device only (`local.toml`).
pub struct LocalAppConfig {
    pub active_profile: String,
    pub os_info: OsInfo,
    /// Maps app name → where the app's config lives on this device.
    pub link_paths: StrMap<String>,
}

/// A named set of managed apps.
pub struct Profile {
    /// Names of the apps managed by this profile.
    pub apps: StrSet,
    /// App name → profile whose copy of the app this profile links to.
    pub app_sources: StrMap<String>,
}

/// A managed application.
pub struct Application {
    pub primary_config: Option<String>,
    pub on_profiles: StrSet,
    pub is_dir: bool,
    pub ignore: Vec<String>,
}

/// `b` holds the same data as `a`.
pub open spec fn same_app(a: Application, b: Application) -> bool {
    &&& b.primary_config == a.primary_config
    &&& b.is_dir == a.is_dir
    &&& b.ignore@ == a.ignore@
    &&& b.on_profiles@ == a.on_profiles@
}

impl Application {
    /// A copy of this app.
    pub fn duplicate(&self) -> (r: Self)
        ensures
            same_app(*self, r),
    {
        let mut ignore: Vec<String> = Vec::new();
        let mut i: usize = 0;
        while i < self.ignore.len()
            invariant
                i <= self.ignore@.len(),
                ignore@ == self.ignore@.take(i as int),
            decreases self.ignore@.len() - i,
        {
            ignore.push(self.ignore[i].clone());
            assert(self.ignore@.take(i + 1) =~= self.ignore@.take(i as int).push(self.ignore@[i as int]));
            i = i + 1;
        }
        assert(self.ignore@.take(self.ignore@.len() as int) =~= self.ignore@);
        let primary_config = match &self.primary_config {
            Some(p) => Some(p.clone()),
            None => None,
        };
        Application { primary_config, on_profiles: self.on_profiles.duplicate(), is_dir: self.is_dir, ignore }
    }
}

impl Profile {
    /// A profile with no apps and no sources.
    pub fn empty() -> (r: Self)
        ensures
            r.apps@.len() == 0,
            r.app_sources@.len() == 0,
    {
        Profile { apps: StrSet::new(), app_sources: StrMap::new() }
    }
}

/// `~/.roost` unless `ROOST_DIR` names another directory.
pub open spec fn roost_dir_spec(env_value: Option<Seq<char>>, home: Seq<char>) -> Seq<char> {
    match env_value {
        Some(v) => v,
        None => path_join(home, ".roost"@),
    }
}

/// The roost directory: the value of `ROOST_DIR` when it is set, else `home/.roost`.
pub fn roost_dir_from(env_value: Option<String>, home: &str) -> (r: String)
    ensures
        r@ == roost_dir_spec(
            match env_value {
                Some(v) => Some(v@),
                None => None,
            },
            home@,
        ),
{
    match env_value {
        Some(v) => v,
        None => join(home, ".roost"),
    }
}

/// Directory holding a profile's app files.
pub fn profile_dir(roost_dir: &str, profile_name: &str) -> (r: String)
    ensures
        r@ == path_join(roost_dir@, profile_name@),
{
    join(roost_dir, profile_name)
}

/// Path of the shared configuration file.
pub fn shared_config_path(roost_dir: &str) -> (r: String)
    ensures
        r@ == path_join(roost_dir@, "roost.toml"@),
{
    join(roost_dir, "roost.toml")
}

/// Path of the local configuration file.
pub fn local_config_path(roost_dir: &str) -> (r: String)
    ensures
        r@ == path_join(roost_dir@, "local.toml"@),
{
    join(roost_dir, "local.toml")
}

// ------------------------------------------------------------------
// Names
// ------------------------------------------------------------------

/// Why a name cannot be used as an app or profile name.
#[derive(Debug, Clone, Copy, PartialEq, Eq, Structural)]
pub enum NameError {
    Empty,
    DotName,
    HasSeparator,
}

/// The first reason `name` cannot name a directory entry of its own: empty, `.` or `..`,
/// or containing `/`, `\` or a NUL character.
pub open spec fn name_problem(name: Seq<char>) -> Option<NameError> {
    if name.len() == 0 {
        Some(NameError::Empty)
    } else if name == seq!['.'] || name == seq!['.', '.'] {
        Some(NameError::DotName)
    } else if name.contains('/') || name.contains('\\') || name.contains('\0') {
        Some(NameError::HasSeparator)
    } else {
        None
    }
}

fn check_name(name: &str) -> (r: Result<(), NameError>)
    ensures
        match r {
            Ok(()) => name_problem(name@) is None,
            Err(e) => name_problem(name@) == Some(e),
        },
{
    let c = chars_of(name);
    if c.len() == 0 {
        return Err(NameError::Empty);
    }
    if (c.len() == 1 && c[0] == '.') || (c.len() == 2 && c[0] == '.' && c[1] == '.') {
        proof {
            if c@.len() == 1 {
                assert(c@ =~= seq!['.']);
            } else {
                assert(c@ =~= seq!['.', '.']);
            }
        }
        return Err(NameError::DotName);
    }
    assert(c@ != seq!['.'] && c@ != seq!['.', '.']) by {
        if c@ == seq!['.'] {
            assert(c@[0] == '.');
        }
        if c@ == seq!['.', '.'] {
            assert(c@[0] == '.' && c@[1] == '.');
        }
    }
    if crate::text::contains_char(c.as_slice(), '/') || crate::text::contains_char(
        c.as_slice(),
        '\\',
    ) || crate::text::contains_char(c.as_slice(), '\0') {
        return Err(NameError::HasSeparator);
    }
    Ok(())
}

/// Checks that `name` can name an app (see [`name_problem`]).
pub fn validate_app_name(name: &str) -> (r: Result<(), NameError>)
    ensures
        match r {
            Ok(()) => name_problem(name@) is None,
            Err(e) => name_problem(name@) == Some(e),
        },
{
    check_name(name)
}

/// Checks that `name` can name a profile (see [`name_problem`]).
pub fn validate_profile_name(name: &str) -> (r: Result<(), NameError>)
    ensures
        match r {
            Ok(()) => name_problem(name@) is None,
            Err(e) => name_problem(name@) == Some(e),
        },
{
    check_name(name)
}

// ------------------------------------------------------------------
// Consistency of the shared configuration
// ------------------------------------------------------------------

/// An inconsistency in a shared configuration.
pub ghost enum ConfigIssue {
    UnknownApp { profile: Seq<char>, app: Seq<char> },
    UnknownSourceApp { profile: Seq<char>, app: Seq<char> },
    UnknownSourceProfile { profile: Seq<char>, app: Seq<char>, source: Seq<char> },
    Cycle { app: Seq<char>, profile: Seq<char>, source: Seq<char> },
    UnknownProfile { app: Seq<char>, profile: Seq<char> },
}

/// An inconsistency found by [`validate_shared`].
#[derive(Debug, Clone)]
pub enum ConfigError {
    /// A profile lists an app that is not defined.
    UnknownApp { profile: String, app: String },
    /// A profile names a source for an app that is not defined.
    UnknownSourceApp { profile: String, app: String },
    /// A profile takes an app from a profile that is not defined.
    UnknownSourceProfile { profile: String, app: String, source: String },
    /// Two profiles take the same app from each other.
    Cycle { app: String, profile: String, source: String },
    /// An app is assigned to a profile that is not defined.
    UnknownProfile { app: String, profile: String },
}

impl View for ConfigError {
    type V = ConfigIssue;

    open spec fn view(&self) -> ConfigIssue {
        match self {
            ConfigError::UnknownApp { profile, app } => ConfigIssue::UnknownApp {
                profile: profile@,
                app: app@,
            },
            ConfigError::UnknownSourceApp { profile, app } => ConfigIssue::UnknownSourceApp {
                profile: profile@,
                app: app@,
            },
            ConfigError::UnknownSourceProfile { profile, app, source } =>
                ConfigIssue::UnknownSourceProfile { profile: profile@, app: app@, source: source@ },
            ConfigError::Cycle { app, profile, source } => ConfigIssue::Cycle {
                app: app@,
                profile: profile@,
                source: source@,
            },
            ConfigError::UnknownProfile { app, profile } => ConfigIssue::UnknownProfile {
                app: app@,
                profile: profile@,
            },
        }
    }
}

/// An inconsistency in words.
pub open spec fn config_issue_text(e: ConfigIssue) -> Seq<char> {
    match e {
        ConfigIssue::UnknownApp { profile, app } => "profile '"@ + profile + "' references unknown app '"@ + app
            + "'"@,
        ConfigIssue::UnknownSourceApp { profile, app } => "profile '"@ + profile
            + "' has source for unknown app '"@ + app + "'"@,
        ConfigIssue::UnknownSourceProfile { profile, app, source } => "profile '"@ + profile + "' sources app '"@
            + app + "' from unknown profile '"@ + source + "'"@,
        ConfigIssue::Cycle { app, profile, source } => "cycle detected: app '"@ + app + "' between profiles '"@
            + profile + "' and '"@ + source + "'"@,
        ConfigIssue::UnknownProfile { app, profile } => "app '"@ + app + "' references unknown profile '"@
            + profile + "'"@,
    }
}

fn quoted(a: &str, b: &str, c: &str, d: &str, e: &str) -> (r: String)
    ensures
        r@ == a@ + b@ + c@ + d@ + e@,
{
    let x = concat(a, b);
    let y = concat(x.as_str(), c);
    let z = concat(y.as_str(), d);
    concat(z.as_str(), e)
}

impl ConfigError {
    /// The inconsistency in words.
    pub fn message(&self) -> (r: String)
        ensures
            r@ == config_issue_text(self@),
    {
        match self {
            ConfigError::UnknownApp { profile, app } => quoted(
                "profile '",
                profile.as_str(),
                "' references unknown app '",
                app.as_str(),
                "'",
            ),
            ConfigError::UnknownSourceApp { profile, app } => quoted(
                "profile '",
                profile.as_str(),
                "' has source for unknown app '",
                app.as_str(),
                "'",
            ),
            ConfigError::UnknownSourceProfile { profile, app, source } => {
                let x = quoted("profile '", profile.as_str(), "' sources app '", app.as_str(), "' from unknown profile '");
                let y = concat(x.as_str(), source.as_str());
                concat(y.as_str(), "'")
            },
            ConfigError::Cycle { app, profile, source } => {
                let x = quoted("cycle detected: app '", app.as_str(), "' between profiles '", profile.as_str(), "' and '");
                let y = concat(x.as_str(), source.as_str());
                concat(y.as_str(), "'")
            },
            ConfigError::UnknownProfile { app, profile } => quoted(
                "app '",
                app.as_str(),
                "' references unknown profile '",
                profile.as_str(),
                "'",
            ),
        }
    }
}

/// First app of `apps` (listed by profile `pname`) that the config does not define.
pub open spec fn profile_apps_issue(cfg: &SharedAppConfig, pname: Seq<char>, apps: Seq<Seq<char>>) -> Option<ConfigIssue>
    decreases apps.len(),
{
    if apps.len() == 0 {
        None
    } else if !has_key(cfg.apps@, apps[0]) {
        Some(ConfigIssue::UnknownApp { profile: pname, app: apps[0] })
    } else {
        profile_apps_issue(cfg, pname, apps.drop_first())
    }
}

/// Problem with profile `pname` taking `app` from profile `src`, if any.
pub open spec fn source_issue(cfg: &SharedAppConfig, pname: Seq<char>, app: Seq<char>, src: Seq<char>) -> Option<ConfigIssue> {
    if !has_key(cfg.apps@, app) {
        Some(ConfigIssue::UnknownSourceApp { profile: pname, app })
    } else if !has_key(cfg.profiles@, src) {
        Some(ConfigIssue::UnknownSourceProfile { profile: pname, app, source: src })
    } else {
        match map_get(cfg.profiles@, src) {
            Some(sp) => if map_get(sp.app_sources@, app) matches Some(back) && back@ == pname {
                Some(ConfigIssue::Cycle { app, profile: pname, source: src })
            } else {
                None
            },
            None => None,
        }
    }
}

/// First problem among the app sources of profile `pname`.
pub open spec fn sources_issue(cfg: &SharedAppConfig, pname: Seq<char>, srcs: Seq<(Seq<char>, Seq<char>)>) -> Option<ConfigIssue>
    decreases srcs.len(),
{
    if srcs.len() == 0 {
        None
    } else {
        match source_issue(cfg, pname, srcs[0].0, srcs[0].1) {
            Some(e) => Some(e),
            None => sources_issue(cfg, pname, srcs.drop_first()),
        }
    }
}

/// The sources of a profile as (app, source profile) texts.
pub open spec fn source_pairs(m: Seq<(Seq<char>, String)>) -> Seq<(Seq<char>, Seq<char>)> {
    m.map_values(|e: (Seq<char>, String)| (e.0, e.1@))
}

/// First problem among profiles `ps`, profile by profile: its apps, then its sources.
pub open spec fn profiles_issue(cfg: &SharedAppConfig, ps: Seq<(Seq<char>, Profile)>) -> Option<ConfigIssue>
    decreases ps.len(),
{
    if ps.len() == 0 {
        None
    } else {
        match profile_apps_issue(cfg, ps[0].0, ps[0].1.apps@) {
            Some(e) => Some(e),
            None => match sources_issue(cfg, ps[0].0, source_pairs(ps[0].1.app_sources@)) {
                Some(e) => Some(e),
                None => profiles_issue(cfg, ps.drop_first()),
            },
        }
    }
}

/// First profile of `profiles` (on which app `aname` is) that the config does not define.
pub open spec fn app_profiles_issue(cfg: &SharedAppConfig, aname: Seq<char>, profiles: Seq<Seq<char>>) -> Option<ConfigIssue>
    decreases profiles.len(),
{
    if profiles.len() == 0 {
        None
    } else if !has_key(cfg.profiles@, profiles[0]) {
        Some(ConfigIssue::UnknownProfile { app: aname, profile: profiles[0] })
    } else {
        app_profiles_issue(cfg, aname, profiles.drop_first())
    }
}

/// First problem among apps `apps`.
pub open spec fn apps_issue(cfg: &SharedAppConfig, apps: Seq<(Seq<char>, Application)>) -> Option<ConfigIssue>
    decreases apps.len(),
{
    if apps.len() == 0 {
        None
    } else {
        match app_profiles_issue(cfg, apps[0].0, apps[0].1.on_profiles@) {
            Some(e) => Some(e),
            None => apps_issue(cfg, apps.drop_first()),
        }
    }
}

/// The first inconsistency of a shared configuration, checking profiles in name order
/// (their apps, then their sources) and then apps in name order.
pub open spec fn config_issue(cfg: &SharedAppConfig) -> Option<ConfigIssue> {
    match profiles_issue(cfg, cfg.profiles@) {
        Some(e) => Some(e),
        None => apps_issue(cfg, cfg.apps@),
    }
}

proof fn lemma_profile_apps_issue_no_cycle(cfg: &SharedAppConfig, pname: Seq<char>, apps: Seq<Seq<char>>)
    ensures
        !(profile_apps_issue(cfg, pname, apps) matches Some(ConfigIssue::Cycle { .. })),
    decreases apps.len(),
{
    if apps.len() > 0 {
        lemma_profile_apps_issue_no_cycle(cfg, pname, apps.drop_first());
    }
}

proof fn lemma_apps_issue_no_cycle(cfg: &SharedAppConfig, apps: Seq<(Seq<char>, Application)>)
    ensures
        !(apps_issue(cfg, apps) matches Some(ConfigIssue::Cycle { .. })),
    decreases apps.len(),
{
    if apps.len() > 0 {
        lemma_app_profiles_issue_no_cycle(cfg, apps[0].0, apps[0].1.on_profiles@);
        lemma_apps_issue_no_cycle(cfg, apps.drop_first());
    }
}

proof fn lemma_app_profiles_issue_no_cycle(cfg: &SharedAppConfig, aname: Seq<char>, profiles: Seq<Seq<char>>)
    ensures
        !(app_profiles_issue(cfg, aname, profiles) matches Some(ConfigIssue::Cycle { .. })),
    decreases profiles.len(),
{
    if profiles.len() > 0 {
        lemma_app_profiles_issue_no_cycle(cfg, aname, profiles.drop_first());
    }
}

proof fn lemma_sources_issue_cycle(cfg: &SharedAppConfig, pname: Seq<char>, srcs: Seq<(Seq<char>, Seq<char>)>)
    ensures
        sources_issue(cfg, pname, srcs) matches Some(ConfigIssue::Cycle { app, profile, source }) ==> {
            &&& profile == pname
            &&& exists|j: int| 0 <= j < srcs.len() && #[trigger] srcs[j] == (app, source)
            &&& map_get(cfg.profiles@, source) matches Some(sp) && map_get(sp.app_sources@, app) matches Some(back)
                && back@ == profile
        },
    decreases srcs.len(),
{
    if srcs.len() > 0 {
        lemma_sources_issue_cycle(cfg, pname, srcs.drop_first());
        if let Some(ConfigIssue::Cycle { app, profile, source }) = sources_issue(cfg, pname, srcs) {
            if source_issue(cfg, pname, srcs[0].0, srcs[0].1) is Some {
                assert(srcs[0] == (app, source));
            } else {
                let j = choose|j: int| 0 <= j < srcs.drop_first().len() && #[trigger] srcs.drop_first()[j] == (app, source);
                assert(srcs[j + 1] == srcs.drop_first()[j]);
            }
        }
    }
}

proof fn lemma_profiles_issue_cycle(cfg: &SharedAppConfig, ps: Seq<(Seq<char>, Profile)>)
    ensures
        profiles_issue(cfg, ps) matches Some(ConfigIssue::Cycle { app, profile, source }) ==> {
            &&& exists|i: int, j: int|
                #![trigger ps[i].1.app_sources@[j]]
                0 <= i < ps.len() && 0 <= j < ps[i].1.app_sources@.len() && ps[i].0 == profile
                    && ps[i].1.app_sources@[j].0 == app && ps[i].1.app_sources@[j].1@ == source
            &&& map_get(cfg.profiles@, source) matches Some(sp) && map_get(sp.app_sources@, app) matches Some(back)
                && back@ == profile
        },
    decreases ps.len(),
{
    if ps.len() > 0 {
        lemma_profiles_issue_cycle(cfg, ps.drop_first());
        lemma_profile_apps_issue_no_cycle(cfg, ps[0].0, ps[0].1.apps@);
        let srcs = source_pairs(ps[0].1.app_sources@);
        lemma_sources_issue_cycle(cfg, ps[0].0, srcs);
        if let Some(ConfigIssue::Cycle { app, profile, source }) = profiles_issue(cfg, ps) {
            if sources_issue(cfg, ps[0].0, srcs) is Some {
                let j = choose|j: int| 0 <= j < srcs.len() && #[trigger] srcs[j] == (app, source);
                assert(srcs[j] == (ps[0].1.app_sources@[j].0, ps[0].1.app_sources@[j].1@));
                assert(ps[0].1.app_sources@[j].0 == app);
            } else {
                let (i, j) = choose|i: int, j: int|
                    #![trigger ps.drop_first()[i].1.app_sources@[j]]
                    0 <= i < ps.drop_first().len() && 0 <= j < ps.drop_first()[i].1.app_sources@.len()
                        && ps.drop_first()[i].0 == profile && ps.drop_first()[i].1.app_sources@[j].0 == app
                        && ps.drop_first()[i].1.app_sources@[j].1@ == source;
                assert(ps[i + 1] == ps.drop_first()[i]);
                assert(ps[i + 1].1.app_sources@[j].0 == app);
            }
        }
    }
}

/// A cycle is reported only for a real back-reference: some profile `profile` takes `app`
/// from profile `source`, and `source` takes that same app back from `profile`. A chain of
/// profiles, each taking an app from the next, is no cycle.
pub proof fn lemma_cycle_is_back_reference(cfg: SharedAppConfig)
    ensures
        config_issue(&cfg) matches Some(ConfigIssue::Cycle { app, profile, source }) ==> {
            &&& exists|i: int, j: int|
                #![trigger cfg.profiles@[i].1.app_sources@[j]]
                0 <= i < cfg.profiles@.len() && 0 <= j < cfg.profiles@[i].1.app_sources@.len() && cfg.profiles@[i].0
                    == profile && cfg.profiles@[i].1.app_sources@[j].0 == app && cfg.profiles@[i].1.app_sources@[j].1@
                    == source
            &&& map_get(cfg.profiles@, source) matches Some(sp) && map_get(sp.app_sources@, app) matches Some(back)
                && back@ == profile
        },
{
    lemma_profiles_issue_cycle(&cfg, cfg.profiles@);
    lemma_apps_issue_no_cycle(&cfg, cfg.apps@);
}

fn copy_string(s: &String) -> (r: String)
    ensures
        r@ == s@,
{
    s.clone()
}

/// Checks that every app a profile lists or sources exists, every source profile
/// exists, no two profiles source the same app from each other, and every profile an
/// app is on exists. Reports the first problem found.
#[verifier::loop_isolation(false)]
pub fn validate_shared(config: &SharedAppConfig) -> (r: Result<(), ConfigError>)
    ensures
        match r {
            Ok(()) => config_issue(config) is None,
            Err(e) => config_issue(config) == Some(e@),
        },
{
    let np = config.profiles.len();
    let mut i: usize = 0;
    let ghost ps = config.profiles@;
    assert(ps.skip(0) =~= ps);
    while i < np
        invariant
            i <= np == ps.len(),
            ps == config.profiles@,
            profiles_issue(config, ps) == profiles_issue(config, ps.skip(i as int)),
        decreases np - i,
    {
        let pname = config.profiles.key_at(i);
        let profile = config.profiles.value_at(i);
        let ghost rest = ps.skip(i as int);
        assert(rest[0] == ps[i as int]);
        assert(rest.drop_first() =~= ps.skip(i + 1));
        // apps of the profile
        let na = profile.apps.len();
        let mut j: usize = 0;
        let ghost apps = profile.apps@;
        assert(apps.skip(0) =~= apps);
        while j < na
            invariant
                j <= na == apps.len(),
                apps == profile.apps@,
                profile_apps_issue(config, pname@, apps) == profile_apps_issue(
                    config,
                    pname@,
                    apps.skip(j as int),
                ),
            decreases na - j,
        {
            let app = profile.apps.at(j);
            let ghost ra = apps.skip(j as int);
            assert(ra[0] == apps[j as int]);
            assert(ra.drop_first() =~= apps.skip(j + 1));
            if !config.apps.contains_key(app.as_str()) {
                return Err(
                    ConfigError::UnknownApp { profile: copy_string(pname), app: copy_string(app) },
                );
            }
            j = j + 1;
        }
        assert(apps.skip(j as int) =~= Seq::<Seq<char>>::empty());
        // sources of the profile
        let ns = profile.app_sources.len();
        let mut k: usize = 0;
        let ghost srcs = source_pairs(profile.app_sources@);
        assert(srcs.skip(0) =~= srcs);
        while k < ns
            invariant
                k <= ns == srcs.len(),
                srcs == source_pairs(profile.app_sources@),
                sources_issue(config, pname@, srcs) == sources_issue(
                    config,
                    pname@,
                    srcs.skip(k as int),
                ),
            decreases ns - k,
        {
            let app = profile.app_sources.key_at(k);
            let src = profile.app_sources.value_at(k);
            let ghost rs = srcs.skip(k as int);
            assert(rs[0] == srcs[k as int]);
            assert(rs.drop_first() =~= srcs.skip(k + 1));
            assert(srcs[k as int] == (app@, src@));
            if !config.apps.contains_key(app.as_str()) {
                return Err(
                    ConfigError::UnknownSourceApp {
                        profile: copy_string(pname),
                        app: copy_string(app),
                    },
                );
            }
            match config.profiles.get(src.as_str()) {
                None => {
                    return Err(
                        ConfigError::UnknownSourceProfile {
                            profile: copy_string(pname),
                            app: copy_string(app),
                            source: copy_string(src),
                        },
                    );
                },
                Some(source) => {
                    match source.app_sources.get(app.as_str()) {
                        Some(back_ref) => {
                            let b = chars_of(back_ref.as_str());
                            let pn = chars_of(pname.as_str());
                            if crate::text::chars_eq(b.as_slice(), pn.as_slice()) {
                                return Err(
                                    ConfigError::Cycle {
                                        app: copy_string(app),
                                        profile: copy_string(pname),
                                        source: copy_string(src),
                                    },
                                );
                            }
                        },
                        None => {},
                    }
                },
            }
            k = k + 1;
        }
        assert(srcs.skip(k as int) =~= Seq::<(Seq<char>, Seq<char>)>::empty());
        i = i + 1;
    }
    assert(ps.skip(i as int) =~= Seq::<(Seq<char>, Profile)>::empty());
    let na = config.apps.len();
    let mut i: usize = 0;
    let ghost aps = config.apps@;
    assert(aps.skip(0) =~= aps);
    while i < na
        invariant
            i <= na == aps.len(),
            aps == config.apps@,
            profiles_issue(config, config.profiles@) is None,
            apps_issue(config, aps) == apps_issue(config, aps.skip(i as int)),
        decreases na - i,
    {
        let aname = config.apps.key_at(i);
        let app = config.apps.value_at(i);
        let ghost rest = aps.skip(i as int);
        assert(rest[0] == aps[i as int]);
        assert(rest.drop_first() =~= aps.skip(i + 1));
        let n = app.on_profiles.len();
        let mut j: usize = 0;
        let ghost pl = app.on_profiles@;
        assert(pl.skip(0) =~= pl);
        while j < n
            invariant
                j <= n == pl.len(),
                pl == app.on_profiles@,
                app_profiles_issue(config, aname@, pl) == app_profiles_issue(
                    config,
                    aname@,
                    pl.skip(j as int),
                ),
            decreases n - j,
        {
            let pname = app.on_profiles.at(j);
            let ghost rp = pl.skip(j as int);
            assert(rp[0] == pl[j as int]);
            assert(rp.drop_first() =~= pl.skip(j + 1));
            if !config.profiles.contains_key(pname.as_str()) {
                return Err(
                    ConfigError::UnknownProfile { app: copy_string(aname), profile: copy_string(pname) },
                );
            }
            j = j + 1;
        }
        assert(pl.skip(j as int) =~= Seq::<Seq<char>>::empty());
        i = i + 1;
    }
    assert(aps.skip(i as int) =~= Seq::<(Seq<char>, Application)>::empty());
    Ok(())
}

/// The primary config guessed for an app that has none and whose place on this device is
/// `base`: a single-file app is its own primary config; a directory app whose directory
/// in the profile holds exactly one entry, named `single`, has that entry. Any other app
/// keeps what it has.
pub open spec fn guessed_primary(a: Application, base: Option<String>, single: Option<String>) -> Option<Seq<char>> {
    match a.primary_config {
        Some(p) => Some(p@),
        None => match base {
            None => None,
            Some(b) => if !a.is_dir {
                Some(b@)
            } else {
                match single {
                    Some(n) => Some(path_join(b@, n@)),
                    None => None,
                }
            },
        },
    }
}

/// Sets the guessed primary config (see [`guessed_primary`]) of every app, so that the
/// user can open it without choosing it first. `single_entries` names, for each directory
/// app whose directory in the profile holds exactly one entry, that entry.
pub fn guess_primary_configs(config: &mut SharedAppConfig, local: &LocalAppConfig, single_entries: &StrMap<String>)
    ensures
        final(config).remote == old(config).remote,
        final(config).profiles == old(config).profiles,
        final(config).ignored == old(config).ignored,
        final(config).apps@.len() == old(config).apps@.len(),
        forall|i: int|
            0 <= i < old(config).apps@.len() ==> {
                let (k, a) = old(config).apps@[i];
                let b = (#[trigger] final(config).apps@[i]).1;
                &&& final(config).apps@[i].0 == k
                &&& b.is_dir == a.is_dir
                &&& b.ignore@ == a.ignore@
                &&& b.on_profiles@ == a.on_profiles@
                &&& match b.primary_config {
                    Some(p) => guessed_primary(a, map_get(local.link_paths@, k), map_get(single_entries@, k))
                        == Some(p@),
                    None => guessed_primary(a, map_get(local.link_paths@, k), map_get(single_entries@, k))
                        is None,
                }
            },
{
    let ghost before = config.apps@;
    let mut i: usize = 0;
    while i < config.apps.len()
        invariant
            i <= config.apps@.len(),
            config.apps@.len() == before.len(),
            config.remote == old(config).remote,
            config.profiles == old(config).profiles,
            config.ignored == old(config).ignored,
            before == old(config).apps@,
            forall|j: int| i <= j < before.len() ==> #[trigger] config.apps@[j] == before[j],
            forall|j: int|
                0 <= j < i ==> {
                    let (k, a) = before[j];
                    let b = (#[trigger] config.apps@[j]).1;
                    &&& config.apps@[j].0 == k
                    &&& b.is_dir == a.is_dir
                    &&& b.ignore@ == a.ignore@
                    &&& b.on_profiles@ == a.on_profiles@
                    &&& match b.primary_config {
                        Some(p) => guessed_primary(a, map_get(local.link_paths@, k), map_get(single_entries@, k))
                            == Some(p@),
                        None => guessed_primary(a, map_get(local.link_paths@, k), map_get(single_entries@, k))
                            is None,
                    }
                },
        decreases before.len() - i,
    {
        let name = config.apps.key_at(i);
        let a = config.apps.value_at(i);
        let guess: Option<String> = if a.primary_config.is_some() {
            None
        } else {
            match local.link_paths.get(name.as_str()) {
                None => None,
                Some(base) => {
                    if !a.is_dir {
                        Some(base.clone())
                    } else {
                        match single_entries.get(name.as_str()) {
                            Some(n) => Some(join(base.as_str(), n.as_str())),
                            None => None,
                        }
                    }
                },
            }
        };
        match guess {
            Some(p) => {
                let mut b = a.duplicate();
                b.primary_config = Some(p);
                let _ = config.apps.replace_at(i, b);
            },
            None => {},
        }
        i = i + 1;
    }
}

/// Takes over the link paths that an older shared config recorded per app (`legacy`, app
/// name to path) when this machine has none yet; returns whether any were taken over, in
/// which case the local config wants saving. A machine with link paths keeps them.
pub fn adopt_legacy_link_paths(local: &mut LocalAppConfig, legacy: &StrMap<String>) -> (r: bool)
    ensures
        final(local).active_profile == old(local).active_profile,
        final(local).os_info == old(local).os_info,
        old(local).link_paths@.len() > 0 ==> final(local).link_paths@ == old(local).link_paths@ && !r,
        old(local).link_paths@.len() == 0 ==> final(local).link_paths@ == legacy@ && r == (legacy@.len() > 0),
{
    if !local.link_paths.is_empty() {
        return false;
    }
    local.link_paths = legacy.duplicate();
    !local.link_paths.is_empty()
}

} // verus!
