//! What `roost doctor` finds: inconsistencies of the shared config, the health of each
//! link, orphans, and the verdict over all of them. Reading the links and the profile
//! directories, and printing, is the caller's part.
use vstd::prelude::*;

use crate::app::{source_pairs, Application, Profile, SharedAppConfig};
use crate::collections::{has_key, map_get};
use crate::linker::LinkStatus;
use crate::text::concat;

verus! {

/// An inconsistency of the shared config.
#[derive(Debug, Clone)]
pub enum Finding {
    /// A profile lists an app that the config does not define.
    UnknownProfileApp { app: String, profile: String },
    /// An app is on no profile.
    AppOnNoProfile { app: String },
    /// A profile takes an app from a profile that does not exist.
    UnknownSourceProfile { profile: String, app: String, source: String },
    /// A profile takes an app that the config does not define from another profile.
    UnknownSourceApp { profile: String, app: String },
}

/// [`Finding`] with its texts as character sequences.
pub ghost enum FindingView {
    UnknownProfileApp { app: Seq<char>, profile: Seq<char> },
    AppOnNoProfile { app: Seq<char> },
    UnknownSourceProfile { profile: Seq<char>, app: Seq<char>, source: Seq<char> },
    UnknownSourceApp { profile: Seq<char>, app: Seq<char> },
}

impl View for Finding {
    type V = FindingView;

    open spec fn view(&self) -> FindingView {
        match self {
            Finding::UnknownProfileApp { app, profile } => FindingView::UnknownProfileApp {
                app: app@,
                profile: profile@,
            },
            Finding::AppOnNoProfile { app } => FindingView::AppOnNoProfile { app: app@ },
            Finding::UnknownSourceProfile { profile, app, source } => FindingView::UnknownSourceProfile {
                profile: profile@,
                app: app@,
                source: source@,
            },
            Finding::UnknownSourceApp { profile, app } => FindingView::UnknownSourceApp {
                profile: profile@,
                app: app@,
            },
        }
    }
}

/// The views of a sequence of findings.
pub open spec fn views(v: Seq<Finding>) -> Seq<FindingView> {
    v.map_values(|f: Finding| f@)
}

/// A finding that makes the doctor fail: all but an app on no profile, which is a warning.
pub open spec fn is_error(f: FindingView) -> bool {
    !(f is AppOnNoProfile)
}

/// One finding for each app of `listed` (listed by `profile`) that `apps` does not define.
pub open spec fn undefined_app_findings(
    apps: Seq<(Seq<char>, Application)>,
    profile: Seq<char>,
    listed: Seq<Seq<char>>,
) -> Seq<FindingView>
    decreases listed.len(),
{
    if listed.len() == 0 {
        Seq::empty()
    } else {
        undefined_app_findings(apps, profile, listed.drop_last()) + if has_key(apps, listed.last()) {
            Seq::empty()
        } else {
            seq![FindingView::UnknownProfileApp { app: listed.last(), profile }]
        }
    }
}

/// One finding for each app of `apps` that is on no profile.
pub open spec fn homeless_app_findings(apps: Seq<(Seq<char>, Application)>) -> Seq<FindingView>
    decreases apps.len(),
{
    if apps.len() == 0 {
        Seq::empty()
    } else {
        homeless_app_findings(apps.drop_last()) + if apps.last().1.on_profiles@.len() == 0 {
            seq![FindingView::AppOnNoProfile { app: apps.last().0 }]
        } else {
            Seq::empty()
        }
    }
}

/// The findings for the (app, source profile) pairs of profile `profile`: for each pair, an
/// unknown source profile, then an unknown app.
pub open spec fn pair_findings(
    cfg: SharedAppConfig,
    profile: Seq<char>,
    pairs: Seq<(Seq<char>, Seq<char>)>,
) -> Seq<FindingView>
    decreases pairs.len(),
{
    if pairs.len() == 0 {
        Seq::empty()
    } else {
        let (app, source) = pairs.last();
        pair_findings(cfg, profile, pairs.drop_last()) + (if has_key(cfg.profiles@, source) {
            Seq::empty()
        } else {
            seq![FindingView::UnknownSourceProfile { profile, app, source }]
        }) + (if has_key(cfg.apps@, app) {
            Seq::empty()
        } else {
            seq![FindingView::UnknownSourceApp { profile, app }]
        })
    }
}

/// The findings for the app sources of the profiles `ps`, profile by profile.
pub open spec fn source_findings(cfg: SharedAppConfig, ps: Seq<(Seq<char>, Profile)>) -> Seq<FindingView>
    decreases ps.len(),
{
    if ps.len() == 0 {
        Seq::empty()
    } else {
        source_findings(cfg, ps.drop_last()) + pair_findings(cfg, ps.last().0, source_pairs(ps.last().1.app_sources@))
    }
}

/// The config findings of the doctor for active profile `active`: its apps that are not
/// defined, then the apps on no profile, then the bad app sources of all profiles; nothing
/// when the active profile does not exist.
pub open spec fn config_findings_of(cfg: SharedAppConfig, active: Seq<char>) -> Option<Seq<FindingView>> {
    match map_get(cfg.profiles@, active) {
        Some(p) => Some(
            undefined_app_findings(cfg.apps@, active, p.apps@) + homeless_app_findings(cfg.apps@)
                + source_findings(cfg, cfg.profiles@),
        ),
        None => None,
    }
}

/// Finds the inconsistencies of the config (see [`config_findings_of`]); `None` when the
/// active profile does not exist.
pub fn config_findings(shared: &SharedAppConfig, active: &str) -> (r: Option<Vec<Finding>>)
    ensures
        match r {
            Some(v) => config_findings_of(*shared, active@) == Some(views(v@)),
            None => config_findings_of(*shared, active@) is None,
        },
{
    let profile = match shared.profiles.get(active) {
        Some(p) => p,
        None => return None,
    };
    let mut out: Vec<Finding> = Vec::new();
    let ghost listed = profile.apps@;
    let mut i: usize = 0;
    proof {
        assert(listed.take(0) =~= Seq::<Seq<char>>::empty());
        assert(views(out@) =~= Seq::<FindingView>::empty());
    }
    while i < profile.apps.len()
        invariant
            i <= listed.len(),
            listed == profile.apps@,
            views(out@) == undefined_app_findings(shared.apps@, active@, listed.take(i as int)),
        decreases listed.len() - i,
    {
        let app = profile.apps.at(i);
        let ghost before = out@;
        if !shared.apps.contains_key(app.as_str()) {
            out.push(Finding::UnknownProfileApp { app: app.clone(), profile: active.to_string() });
        }
        proof {
            assert(listed.take(i + 1).drop_last() =~= listed.take(i as int));
            assert(views(out@) =~= views(before) + if has_key(shared.apps@, listed[i as int]) {
                Seq::empty()
            } else {
                seq![FindingView::UnknownProfileApp { app: listed[i as int], profile: active@ }]
            });
        }
        i = i + 1;
    }
    proof {
        assert(listed.take(listed.len() as int) =~= listed);
    }
    let ghost first = views(out@);
    let ghost apps = shared.apps@;
    let mut j: usize = 0;
    proof {
        assert(apps.take(0) =~= Seq::<(Seq<char>, Application)>::empty());
        assert(first + homeless_app_findings(apps.take(0)) =~= first);
    }
    while j < shared.apps.len()
        invariant
            j <= apps.len(),
            apps == shared.apps@,
            views(out@) == first + homeless_app_findings(apps.take(j as int)),
        decreases apps.len() - j,
    {
        let ghost before = out@;
        let a = shared.apps.value_at(j);
        if a.on_profiles.len() == 0 {
            out.push(Finding::AppOnNoProfile { app: shared.apps.key_at(j).clone() });
        }
        proof {
            assert(apps.take(j + 1).drop_last() =~= apps.take(j as int));
            assert(views(out@) =~= views(before) + if apps[j as int].1.on_profiles@.len() == 0 {
                seq![FindingView::AppOnNoProfile { app: apps[j as int].0 }]
            } else {
                Seq::empty()
            });
        }
        j = j + 1;
    }
    proof {
        assert(apps.take(apps.len() as int) =~= apps);
    }
    let ghost second = views(out@);
    let ghost ps = shared.profiles@;
    let mut k: usize = 0;
    proof {
        assert(ps.take(0) =~= Seq::<(Seq<char>, Profile)>::empty());
        assert(second + source_findings(*shared, ps.take(0)) =~= second);
    }
    while k < shared.profiles.len()
        invariant
            k <= ps.len(),
            ps == shared.profiles@,
            views(out@) == second + source_findings(*shared, ps.take(k as int)),
        decreases ps.len() - k,
    {
        let pname = shared.profiles.key_at(k);
        let prof = shared.profiles.value_at(k);
        let ghost pairs = source_pairs(prof.app_sources@);
        let ghost start = views(out@);
        let mut m: usize = 0;
        proof {
            assert(pairs.take(0) =~= Seq::<(Seq<char>, Seq<char>)>::empty());
            assert(start + pair_findings(*shared, pname@, pairs.take(0)) =~= start);
        }
        while m < prof.app_sources.len()
            invariant
                m <= pairs.len(),
                pairs == source_pairs(prof.app_sources@),
                pairs.len() == prof.app_sources@.len(),
                views(out@) == start + pair_findings(*shared, pname@, pairs.take(m as int)),
            decreases pairs.len() - m,
        {
            let ghost before = out@;
            let app = prof.app_sources.key_at(m);
            let source = prof.app_sources.value_at(m);
            proof {
                assert(pairs[m as int] == (app@, source@));
            }
            if !shared.profiles.contains_key(source.as_str()) {
                out.push(
                    Finding::UnknownSourceProfile { profile: pname.clone(), app: app.clone(), source: source.clone() },
                );
            }
            let ghost middle = out@;
            if !shared.apps.contains_key(app.as_str()) {
                out.push(Finding::UnknownSourceApp { profile: pname.clone(), app: app.clone() });
            }
            proof {
                assert(pairs.take(m + 1).drop_last() =~= pairs.take(m as int));
                assert(views(middle) =~= views(before) + if has_key(shared.profiles@, source@) {
                    Seq::empty()
                } else {
                    seq![FindingView::UnknownSourceProfile { profile: pname@, app: app@, source: source@ }]
                });
                assert(views(out@) =~= views(middle) + if has_key(shared.apps@, app@) {
                    Seq::empty()
                } else {
                    seq![FindingView::UnknownSourceApp { profile: pname@, app: app@ }]
                });
            }
            m = m + 1;
        }
        proof {
            assert(pairs.take(pairs.len() as int) =~= pairs);
            assert(ps.take(k + 1).drop_last() =~= ps.take(k as int));
            assert(ps[k as int] == (pname@, *prof));
        }
        k = k + 1;
    }
    proof {
        assert(ps.take(ps.len() as int) =~= ps);
    }
    Some(out)
}

impl Finding {
    /// Whether the finding makes the doctor fail (see [`is_error`]).
    pub fn is_error(&self) -> (r: bool)
        ensures
            r == is_error(self@),
    {
        match self {
            Finding::AppOnNoProfile { .. } => false,
            _ => true,
        }
    }

    /// The finding in words.
    pub fn message(&self) -> (r: String)
        ensures
            r@ == finding_text(self@),
    {
        match self {
            Finding::UnknownProfileApp { app, profile } => {
                let a = concat("App '", app.as_str());
                let b = concat(a.as_str(), "' in profile '");
                let c = concat(b.as_str(), profile.as_str());
                concat(c.as_str(), "' but missing from apps")
            },
            Finding::AppOnNoProfile { app } => {
                let a = concat("App '", app.as_str());
                concat(a.as_str(), "' not in any profile")
            },
            Finding::UnknownSourceProfile { profile, app, source } => {
                let a = concat("Profile '", profile.as_str());
                let b = concat(a.as_str(), "' app '");
                let c = concat(b.as_str(), app.as_str());
                let d = concat(c.as_str(), "' references non-existent source '");
                let e = concat(d.as_str(), source.as_str());
                concat(e.as_str(), "'")
            },
            Finding::UnknownSourceApp { profile, app } => {
                let a = concat("Profile '", profile.as_str());
                let b = concat(a.as_str(), "' references non-existent app '");
                let c = concat(b.as_str(), app.as_str());
                concat(c.as_str(), "'")
            },
        }
    }
}

/// A finding in words.
pub open spec fn finding_text(f: FindingView) -> Seq<char> {
    match f {
        FindingView::UnknownProfileApp { app, profile } => "App '"@ + app + "' in profile '"@ + profile
            + "' but missing from apps"@,
        FindingView::AppOnNoProfile { app } => "App '"@ + app + "' not in any profile"@,
        FindingView::UnknownSourceProfile { profile, app, source } => "Profile '"@ + profile + "' app '"@
            + app + "' references non-existent source '"@ + source + "'"@,
        FindingView::UnknownSourceApp { profile, app } => "Profile '"@ + profile
            + "' references non-existent app '"@ + app + "'"@,
    }
}

/// How bad a link's state is.
#[derive(Debug, Clone, Copy, PartialEq, Eq, Structural)]
pub enum Severity {
    Fine,
    Warning,
    Error,
}

/// A good link is fine; a missing link or an app with no place on this device is a
/// warning; a link to the wrong place, or a real file where the link should be, is an
/// error.
pub open spec fn severity_of(s: LinkStatus) -> Severity {
    match s {
        LinkStatus::Linked { .. } => Severity::Fine,
        LinkStatus::Missing { .. } => Severity::Warning,
        LinkStatus::NoLinkPath { .. } => Severity::Warning,
        LinkStatus::Broken { .. } => Severity::Error,
        LinkStatus::Conflict { .. } => Severity::Error,
    }
}

/// The severity of a link's state (see [`severity_of`]).
pub fn link_severity(s: &LinkStatus) -> (r: Severity)
    ensures
        r == severity_of(*s),
{
    match s {
        LinkStatus::Linked { .. } => Severity::Fine,
        LinkStatus::Missing { .. } => Severity::Warning,
        LinkStatus::NoLinkPath { .. } => Severity::Warning,
        LinkStatus::Broken { .. } => Severity::Error,
        LinkStatus::Conflict { .. } => Severity::Error,
    }
}

/// How the doctor ends.
#[derive(Debug, Clone, Copy, PartialEq, Eq, Structural)]
pub enum Verdict {
    /// Something is wrong: the doctor fails.
    Errors,
    /// Only warnings: the doctor suggests adopting orphans.
    Warnings,
    /// All checks passed.
    Clean,
}

/// How the doctor ends: with errors when a finding or a link is an error; otherwise with
/// warnings when there is any finding, a link that is a warning, or an orphan; otherwise
/// with all checks passed.
pub open spec fn verdict_of(findings: Seq<FindingView>, statuses: Seq<LinkStatus>, orphans: nat) -> Verdict {
    if (exists|i: int| 0 <= i < findings.len() && is_error(#[trigger] findings[i])) || (exists|i: int|
        0 <= i < statuses.len() && severity_of(#[trigger] statuses[i]) == Severity::Error) {
        Verdict::Errors
    } else if findings.len() > 0 || orphans > 0 || (exists|i: int|
        0 <= i < statuses.len() && severity_of(#[trigger] statuses[i]) == Severity::Warning) {
        Verdict::Warnings
    } else {
        Verdict::Clean
    }
}

/// The doctor's verdict (see [`verdict_of`]).
pub fn doctor_verdict(findings: &[Finding], statuses: &[LinkStatus], orphans: usize) -> (r: Verdict)
    ensures
        r == verdict_of(views(findings@), statuses@, orphans as nat),
{
    let mut error = false;
    let mut warning = orphans > 0 || findings.len() > 0;
    let mut i: usize = 0;
    while i < findings.len()
        invariant
            i <= findings@.len(),
            error == exists|k: int| 0 <= k < i && is_error(#[trigger] views(findings@)[k]),
        decreases findings@.len() - i,
    {
        if findings[i].is_error() {
            error = true;
        }
        proof {
            assert(views(findings@)[i as int] == findings@[i as int]@);
        }
        i = i + 1;
    }
    let mut j: usize = 0;
    while j < statuses.len()
        invariant
            j <= statuses@.len(),
            error == ((exists|k: int| 0 <= k < findings@.len() && is_error(#[trigger] views(findings@)[k]))
                || exists|k: int| 0 <= k < j && severity_of(#[trigger] statuses@[k]) == Severity::Error),
            warning == (findings@.len() > 0 || orphans > 0 || exists|k: int|
                0 <= k < j && severity_of(#[trigger] statuses@[k]) == Severity::Warning),
        decreases statuses@.len() - j,
    {
        let s = link_severity(&statuses[j]);
        if s == Severity::Error {
            error = true;
        } else if s == Severity::Warning {
            warning = true;
        }
        j = j + 1;
    }
    proof {
        assert(views(findings@).len() == findings@.len());
    }
    if error {
        Verdict::Errors
    } else if warning {
        Verdict::Warnings
    } else {
        Verdict::Clean
    }
}

/// The doctor fails exactly when a config finding is anything but an app on no profile,
/// or a link is broken (its origin points elsewhere) or in conflict (a real file or
/// directory stands at its origin); it passes clean exactly when there is no finding, no
/// orphan, and every app is linked; else it warns.
pub proof fn lemma_doctor_verdict(findings: Seq<FindingView>, statuses: Seq<LinkStatus>, orphans: nat)
    ensures
        (verdict_of(findings, statuses, orphans) == Verdict::Errors) <==> ((exists|i: int|
            0 <= i < findings.len() && !(#[trigger] findings[i] is AppOnNoProfile)) || (exists|i: int|
            0 <= i < statuses.len() && ((#[trigger] statuses[i] is Broken) || statuses[i] is Conflict))),
        (verdict_of(findings, statuses, orphans) == Verdict::Clean) <==> (findings.len() == 0 && orphans == 0
            && forall|i: int| 0 <= i < statuses.len() ==> #[trigger] statuses[i] is Linked),
{
    assert forall|i: int| 0 <= i < statuses.len() implies (severity_of(#[trigger] statuses[i]) == Severity::Error)
        == (statuses[i] is Broken || statuses[i] is Conflict) by {}
    assert forall|i: int| 0 <= i < statuses.len() implies (severity_of(#[trigger] statuses[i]) == Severity::Fine)
        == (statuses[i] is Linked) by {}
    if verdict_of(findings, statuses, orphans) == Verdict::Clean {
        assert forall|i: int| 0 <= i < statuses.len() implies #[trigger] statuses[i] is Linked by {
            assert(severity_of(statuses[i]) != Severity::Error);
            assert(severity_of(statuses[i]) != Severity::Warning);
        }
    }
}

} // verus!
