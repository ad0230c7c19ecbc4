//! Decisions of the git-backed store: reading `git log` and `git diff --stat` output,
//! merging the shared config during a sync, and classifying apps for a rollback.
use vstd::prelude::*;

use crate::app::{same_app, Application, LocalAppConfig, Profile, SharedAppConfig};
use crate::collections::{has_key, keys_of, map_get, StrMap, StrSet};
use crate::paths::{path_components, same_path};
use crate::text::{
    append_str, chars_of, concat, contains_text, decimal, decimal_of, first_word, first_word_of, has_infix, lines_of,
    parse_u32, parse_u32_of, split_chars, split_lines, split_on, string_from_chars, trim, trim_chars,
};

verus! {

/// One commit of the store's history.
pub struct CommitInfo {
    pub hash: String,
    pub message: String,
    pub timestamp: String,
}

/// Which side wins when local and remote disagree during a sync.
#[derive(Debug, Clone, Copy, PartialEq, Eq, Structural)]
pub enum ConflictPreference {
    Local,
    Remote,
}

/// How a sync ended.
pub enum SyncResult {
    Clean,
    ConfigConflict { resolved: Vec<String> },
    FileConflict {
        config_conflicts: Vec<String>,
        file_conflicts: Vec<String>,
        backups: Vec<String>,
        preference: ConflictPreference,
    },
}

/// The non-empty pieces of `pieces`, in order.
pub open spec fn nonempty(pieces: Seq<Seq<char>>) -> Seq<Seq<char>>
    decreases pieces.len(),
{
    if pieces.len() == 0 {
        Seq::empty()
    } else {
        let rest = nonempty(pieces.drop_last());
        if pieces.last().len() > 0 {
            rest.push(pieces.last())
        } else {
            rest
        }
    }
}

/// The commit records of `git log --pretty=format:%H%x00%s%x00%ci%x01` output: the
/// non-empty pieces between `\x01` separators.
pub open spec fn log_records(output: Seq<char>) -> Seq<Seq<char>> {
    nonempty(split_on(output, '\u{1}'))
}

/// The field at position `i` of a record split at NUL characters, empty when missing.
pub open spec fn field(parts: Seq<Seq<char>>, i: int) -> Seq<char> {
    if i < parts.len() {
        parts[i]
    } else {
        Seq::empty()
    }
}

/// `c` is the commit that `record` describes: hash, subject and date, separated by NUL
/// characters, around white space that is dropped.
pub open spec fn commit_from(c: CommitInfo, record: Seq<char>) -> bool {
    let parts = split_on(trim(record), '\0');
    &&& c.hash@ == field(parts, 0)
    &&& c.message@ == field(parts, 1)
    &&& c.timestamp@ == field(parts, 2)
}

fn field_of(parts: &Vec<Vec<char>>, i: usize) -> (r: String)
    ensures
        r@ == field(parts@.map_values(|p: Vec<char>| p@), i as int),
{
    if i < parts.len() {
        string_from_chars(parts[i].as_slice())
    } else {
        String::new()
    }
}

/// Reads the commits out of `git log` output (one record per commit, see
/// [`log_records`]).
pub fn parse_log(output: &str) -> (r: Vec<CommitInfo>)
    ensures
        r@.len() == log_records(output@).len(),
        forall|i: int| 0 <= i < r@.len() ==> #[trigger] commit_from(r@[i], log_records(output@)[i]),
{
    let c = chars_of(output);
    let pieces = split_chars(c.as_slice(), '\u{1}');
    let ghost ps = split_on(output@, '\u{1}');
    let mut out: Vec<CommitInfo> = Vec::new();
    let mut i: usize = 0;
    while i < pieces.len()
        invariant
            i <= pieces@.len(),
            pieces@.len() == ps.len(),
            ps == split_on(output@, '\u{1}'),
            forall|k: int| 0 <= k < pieces@.len() ==> #[trigger] pieces@[k]@ == ps[k],
            out@.len() == nonempty(ps.take(i as int)).len(),
            forall|k: int| 0 <= k < out@.len() ==> #[trigger] commit_from(out@[k], nonempty(ps.take(i as int))[k]),
        decreases pieces@.len() - i,
    {
        proof {
            assert(ps.take(i + 1).drop_last() =~= ps.take(i as int));
            assert(ps.take(i + 1).last() == ps[i as int]);
        }
        if pieces[i].len() > 0 {
            let rec = trim_chars(pieces[i].as_slice());
            let parts = split_chars(rec.as_slice(), '\0');
            let ghost pv = parts@.map_values(|p: Vec<char>| p@);
            proof {
                assert(pv =~= split_on(trim(ps[i as int]), '\0'));
            }
            let commit = CommitInfo { hash: field_of(&parts, 0), message: field_of(&parts, 1), timestamp: field_of(&parts, 2) };
            out.push(commit);
            proof {
                assert(nonempty(ps.take(i + 1)) == nonempty(ps.take(i as int)).push(ps[i as int]));
                assert forall|k: int| 0 <= k < out@.len() implies #[trigger] commit_from(out@[k], nonempty(ps.take(i + 1))[k]) by {
                    if k < out@.len() - 1 {
                        assert(nonempty(ps.take(i + 1))[k] == nonempty(ps.take(i as int))[k]);
                    }
                }
            }
        } else {
            proof {
                assert(nonempty(ps.take(i + 1)) == nonempty(ps.take(i as int)));
            }
        }
        i = i + 1;
    }
    proof {
        assert(ps.take(ps.len() as int) =~= ps);
    }
    out
}

/// The number after the first `sep` of `line`: the first word of the piece after it, read
/// as a `u32`.
pub open spec fn count_after(line: Seq<char>, sep: char) -> Option<u32> {
    let pieces = split_on(line, sep);
    if pieces.len() > 1 {
        match first_word(pieces[1]) {
            Some(w) => parse_u32(w),
            None => None,
        }
    } else {
        None
    }
}

/// The summary of one `git diff --stat` line: `file+adds/-dels` when the line names a
/// file and both counts can be read.
pub open spec fn stat_entry(line: Seq<char>) -> Option<Seq<char>> {
    match first_word(line) {
        None => None,
        Some(file) => match (count_after(line, '+'), count_after(line, '-')) {
            (Some(a), Some(d)) => Some(file + "+"@ + decimal(a as nat) + "/-"@ + decimal(d as nat)),
            _ => None,
        },
    }
}

/// The summaries of the lines that are not a "files changed" total, in order.
pub open spec fn stat_entries(lines: Seq<Seq<char>>) -> Seq<Seq<char>>
    decreases lines.len(),
{
    if lines.len() == 0 {
        Seq::empty()
    } else {
        let rest = stat_entries(lines.drop_last());
        let l = lines.last();
        if !has_infix(l, "files changed"@) && stat_entry(l) is Some {
            rest.push(stat_entry(l)->0)
        } else {
            rest
        }
    }
}

/// At most the first `n` elements of `s`.
pub open spec fn first_n(s: Seq<Seq<char>>, n: nat) -> Seq<Seq<char>> {
    if s.len() > n {
        s.take(n as int)
    } else {
        s
    }
}

/// The pieces joined with `sep` between them.
pub open spec fn joined(parts: Seq<Seq<char>>, sep: Seq<char>) -> Seq<char>
    decreases parts.len(),
{
    if parts.len() == 0 {
        Seq::empty()
    } else if parts.len() == 1 {
        parts[0]
    } else {
        joined(parts.drop_last(), sep) + sep + parts.last()
    }
}

/// The one-line summary of `git diff --stat` output: the first five file summaries
/// joined with `, `, or when there is none, the last line of the output.
pub open spec fn stat_summary(output: Seq<char>) -> Seq<char> {
    let parts = first_n(stat_entries(split_lines(output)), 5);
    if parts.len() == 0 {
        let ls = split_lines(output);
        if ls.len() > 0 {
            ls.last()
        } else {
            Seq::empty()
        }
    } else {
        joined(parts, ", "@)
    }
}

fn count_after_of(line: &[char], sep: char) -> (r: Option<u32>)
    ensures
        r == count_after(line@, sep),
{
    let pieces = split_chars(line, sep);
    if pieces.len() > 1 {
        match first_word_of(pieces[1].as_slice()) {
            Some(w) => parse_u32_of(w.as_slice()),
            None => None,
        }
    } else {
        None
    }
}

fn stat_entry_of(line: &[char]) -> (r: Option<String>)
    ensures
        match r {
            Some(e) => stat_entry(line@) == Some(e@),
            None => stat_entry(line@) is None,
        },
{
    let file = match first_word_of(line) {
        None => return None,
        Some(f) => f,
    };
    let adds = count_after_of(line, '+');
    let dels = count_after_of(line, '-');
    match (adds, dels) {
        (Some(a), Some(d)) => {
            let mut e = string_from_chars(file.as_slice());
            append_str(&mut e, "+");
            append_str(&mut e, decimal_of(a as u64).as_str());
            append_str(&mut e, "/-");
            append_str(&mut e, decimal_of(d as u64).as_str());
            Some(e)
        },
        _ => None,
    }
}

/// Summarizes `git diff --stat` output in one line (see [`stat_summary`]).
pub fn parse_git_stat(output: &str) -> (r: String)
    ensures
        r@ == stat_summary(output@),
{
    let cs = chars_of(output);
    let ls = lines_of(cs.as_slice());
    let ghost lv = split_lines(output@);
    let mut parts: Vec<String> = Vec::new();
    let mut i: usize = 0;
    while i < ls.len()
        invariant
            i <= ls@.len(),
            ls@.len() == lv.len(),
            lv == split_lines(output@),
            forall|k: int| 0 <= k < ls@.len() ==> #[trigger] ls@[k]@ == lv[k],
            parts@.len() == first_n(stat_entries(lv.take(i as int)), 5).len(),
            forall|k: int| 0 <= k < parts@.len() ==> #[trigger] parts@[k]@ == first_n(stat_entries(lv.take(i as int)), 5)[k],
        decreases ls@.len() - i,
    {
        proof {
            assert(lv.take(i + 1).drop_last() =~= lv.take(i as int));
            assert(lv.take(i + 1).last() == lv[i as int]);
        }
        let line = string_from_chars(ls[i].as_slice());
        let total = contains_text(line.as_str(), "files changed");
        if !total {
            match stat_entry_of(ls[i].as_slice()) {
                Some(e) => {
                    if parts.len() < 5 {
                        parts.push(e);
                        proof {
                            let prev = stat_entries(lv.take(i as int));
                            assert(stat_entries(lv.take(i + 1)) == prev.push(stat_entry(lv[i as int])->0));
                            assert(prev.len() < 5);
                            assert(first_n(stat_entries(lv.take(i + 1)), 5) =~= first_n(prev, 5).push(stat_entry(lv[i as int])->0));
                        }
                    } else {
                        proof {
                            let prev = stat_entries(lv.take(i as int));
                            assert(stat_entries(lv.take(i + 1)) == prev.push(stat_entry(lv[i as int])->0));
                            assert(first_n(stat_entries(lv.take(i + 1)), 5) =~= first_n(prev, 5));
                        }
                    }
                },
                None => {
                    assert(stat_entries(lv.take(i + 1)) == stat_entries(lv.take(i as int)));
                },
            }
        } else {
            assert(stat_entries(lv.take(i + 1)) == stat_entries(lv.take(i as int)));
        }
        i = i + 1;
    }
    proof {
        assert(lv.take(lv.len() as int) =~= lv);
    }
    if parts.len() == 0 {
        if ls.len() > 0 {
            return string_from_chars(ls[ls.len() - 1].as_slice());
        } else {
            return String::new();
        }
    }
    let mut out = parts[0].clone();
    let mut j: usize = 1;
    proof {
        assert(joined(parts@.map_values(|p: String| p@).take(1), ", "@) == parts@[0]@);
    }
    while j < parts.len()
        invariant
            1 <= j <= parts@.len(),
            out@ == joined(parts@.map_values(|p: String| p@).take(j as int), ", "@),
        decreases parts@.len() - j,
    {
        proof {
            let pv = parts@.map_values(|p: String| p@);
            assert(pv.take(j + 1).drop_last() =~= pv.take(j as int));
        }
        append_str(&mut out, ", ");
        append_str(&mut out, parts[j].as_str());
        j = j + 1;
    }
    proof {
        let pv = parts@.map_values(|p: String| p@);
        assert(pv.take(pv.len() as int) =~= pv);
        assert(pv =~= first_n(stat_entries(lv), 5));
    }
    out
}

// ------------------------------------------------------------------
// Merging the shared config during a sync
// ------------------------------------------------------------------

/// A difference between the local and the remote shared config, and how the merge
/// settled it.
#[derive(Debug, Clone)]
pub enum MergeNote {
    /// A global ignore pattern only the remote had was added.
    IgnoredAdded(String),
    /// A global ignore pattern only the local config had was dropped.
    IgnoredRemoved(String),
    /// The two sides disagree on whether the app is a directory.
    IsDir { app: String, local: bool, remote: bool, kept_local: bool },
    /// The two sides disagree on the app's primary config; the remote one was kept.
    PrimaryConfig { app: String, local: Option<String>, remote: Option<String> },
    /// The two sides disagree on the app's ignore patterns; the remote ones were kept.
    IgnoreKeptRemote { app: String, count: usize },
    AppAdded(String),
    AppRemoved(String),
    ProfileAppRemoved { profile: String, app: String },
    ProfileAppAdded { profile: String, app: String },
    ProfileAdded(String),
    ProfileRemoved(String),
}

/// [`MergeNote`] with its texts as character sequences.
pub ghost enum NoteView {
    IgnoredAdded(Seq<char>),
    IgnoredRemoved(Seq<char>),
    IsDir { app: Seq<char>, local: bool, remote: bool, kept_local: bool },
    PrimaryConfig { app: Seq<char>, local: Option<Seq<char>>, remote: Option<Seq<char>> },
    IgnoreKeptRemote { app: Seq<char>, count: nat },
    AppAdded(Seq<char>),
    AppRemoved(Seq<char>),
    ProfileAppRemoved { profile: Seq<char>, app: Seq<char> },
    ProfileAppAdded { profile: Seq<char>, app: Seq<char> },
    ProfileAdded(Seq<char>),
    ProfileRemoved(Seq<char>),
}

/// An optional text as a character sequence.
pub open spec fn opt_view(o: Option<String>) -> Option<Seq<char>> {
    match o {
        Some(s) => Some(s@),
        None => None,
    }
}

impl View for MergeNote {
    type V = NoteView;

    open spec fn view(&self) -> NoteView {
        match self {
            MergeNote::IgnoredAdded(p) => NoteView::IgnoredAdded(p@),
            MergeNote::IgnoredRemoved(p) => NoteView::IgnoredRemoved(p@),
            MergeNote::IsDir { app, local, remote, kept_local } => NoteView::IsDir {
                app: app@,
                local: *local,
                remote: *remote,
                kept_local: *kept_local,
            },
            MergeNote::PrimaryConfig { app, local, remote } => NoteView::PrimaryConfig {
                app: app@,
                local: opt_view(*local),
                remote: opt_view(*remote),
            },
            MergeNote::IgnoreKeptRemote { app, count } => NoteView::IgnoreKeptRemote { app: app@, count: *count as nat },
            MergeNote::AppAdded(a) => NoteView::AppAdded(a@),
            MergeNote::AppRemoved(a) => NoteView::AppRemoved(a@),
            MergeNote::ProfileAppRemoved { profile, app } => NoteView::ProfileAppRemoved { profile: profile@, app: app@ },
            MergeNote::ProfileAppAdded { profile, app } => NoteView::ProfileAppAdded { profile: profile@, app: app@ },
            MergeNote::ProfileAdded(n) => NoteView::ProfileAdded(n@),
            MergeNote::ProfileRemoved(n) => NoteView::ProfileRemoved(n@),
        }
    }
}

/// The notes as views.
pub open spec fn note_views(v: Seq<MergeNote>) -> Seq<NoteView> {
    v.map_values(|n: MergeNote| n@)
}

/// The elements of `xs` that `ys` lacks, in order.
pub open spec fn missing_from(xs: Seq<Seq<char>>, ys: Seq<Seq<char>>) -> Seq<Seq<char>>
    decreases xs.len(),
{
    if xs.len() == 0 {
        Seq::empty()
    } else {
        let r = missing_from(xs.drop_last(), ys);
        if ys.contains(xs.last()) {
            r
        } else {
            r.push(xs.last())
        }
    }
}

/// An optional path as its components, for comparing paths as `std::path` does.
pub open spec fn path_opt(o: Option<String>) -> Option<Seq<Seq<char>>> {
    match o {
        Some(p) => Some(path_components(p@)),
        None => None,
    }
}

/// The texts of a list of strings.
pub open spec fn texts(v: Seq<String>) -> Seq<Seq<char>> {
    v.map_values(|s: String| s@)
}

/// The notes for app `name`, which the remote config has as `ra` and the local config has
/// as `la` (if at all).
pub open spec fn app_notes_for(name: Seq<char>, la: Option<Application>, ra: Application, pref: ConflictPreference) -> Seq<NoteView> {
    match la {
        None => seq![NoteView::AppAdded(name)],
        Some(la) => if la.is_dir != ra.is_dir {
            seq![NoteView::IsDir { app: name, local: la.is_dir, remote: ra.is_dir, kept_local: pref == ConflictPreference::Local }]
        } else if pref == ConflictPreference::Remote {
            (if path_opt(la.primary_config) != path_opt(ra.primary_config) {
                seq![NoteView::PrimaryConfig { app: name, local: opt_view(la.primary_config), remote: opt_view(ra.primary_config) }]
            } else {
                Seq::empty()
            }) + (if texts(la.ignore@) != texts(ra.ignore@) {
                seq![NoteView::IgnoreKeptRemote { app: name, count: ra.ignore@.len() }]
            } else {
                Seq::empty()
            })
        } else {
            Seq::empty()
        },
    }
}

/// The notes for the remote apps `ra`, in order.
pub open spec fn app_notes(la: Seq<(Seq<char>, Application)>, ra: Seq<(Seq<char>, Application)>, pref: ConflictPreference) -> Seq<NoteView>
    decreases ra.len(),
{
    if ra.len() == 0 {
        Seq::empty()
    } else {
        app_notes(la, ra.drop_last(), pref) + app_notes_for(ra.last().0, map_get(la, ra.last().0), ra.last().1, pref)
    }
}

/// The apps of `apps` that the merge keeps: not those that only the local side has, which
/// a remote-preferring merge drops.
pub open spec fn kept_apps(apps: Seq<Seq<char>>, la: Seq<(Seq<char>, Application)>, ra: Seq<(Seq<char>, Application)>) -> Seq<Seq<char>>
    decreases apps.len(),
{
    if apps.len() == 0 {
        Seq::empty()
    } else {
        let r = kept_apps(apps.drop_last(), la, ra);
        let a = apps.last();
        if has_key(la, a) && !has_key(ra, a) {
            r
        } else {
            r.push(a)
        }
    }
}

/// The notes for profile `name`, which the remote config has as `rp` and the local config
/// has as `lp` (if at all).
pub open spec fn profile_notes_for(
    name: Seq<char>,
    lp: Option<Profile>,
    rp: Profile,
    la: Seq<(Seq<char>, Application)>,
    ra: Seq<(Seq<char>, Application)>,
    pref: ConflictPreference,
) -> Seq<NoteView> {
    match lp {
        None => seq![NoteView::ProfileAdded(name)],
        Some(lp) => if pref == ConflictPreference::Remote {
            missing_from(kept_apps(lp.apps@, la, ra), rp.apps@).map_values(|a: Seq<char>| NoteView::ProfileAppRemoved { profile: name, app: a })
        } else {
            missing_from(rp.apps@, lp.apps@).map_values(|a: Seq<char>| NoteView::ProfileAppAdded { profile: name, app: a })
        },
    }
}

/// The notes for the remote profiles `rp`, in order.
pub open spec fn profile_notes(
    lp: Seq<(Seq<char>, Profile)>,
    rp: Seq<(Seq<char>, Profile)>,
    la: Seq<(Seq<char>, Application)>,
    ra: Seq<(Seq<char>, Application)>,
    pref: ConflictPreference,
) -> Seq<NoteView>
    decreases rp.len(),
{
    if rp.len() == 0 {
        Seq::empty()
    } else {
        profile_notes(lp, rp.drop_last(), la, ra, pref) + profile_notes_for(rp.last().0, map_get(lp, rp.last().0), rp.last().1, la, ra, pref)
    }
}

/// Everything a merge of `local` with `remote` reports, in the order it finds it: the
/// global ignore patterns, the apps, the dropped apps, the profiles, the dropped profiles.
pub open spec fn merge_notes(local: SharedAppConfig, remote: SharedAppConfig, pref: ConflictPreference) -> Seq<NoteView> {
    let remote_wins = pref == ConflictPreference::Remote;
    (if remote_wins {
        missing_from(local.ignored@, remote.ignored@).map_values(|p: Seq<char>| NoteView::IgnoredRemoved(p))
    } else {
        missing_from(remote.ignored@, local.ignored@).map_values(|p: Seq<char>| NoteView::IgnoredAdded(p))
    }) + app_notes(local.apps@, remote.apps@, pref) + (if remote_wins {
        missing_from(keys_of(local.apps@), keys_of(remote.apps@)).map_values(|a: Seq<char>| NoteView::AppRemoved(a))
    } else {
        Seq::empty()
    }) + profile_notes(local.profiles@, remote.profiles@, local.apps@, remote.apps@, pref) + (if remote_wins {
        missing_from(keys_of(local.profiles@), keys_of(remote.profiles@)).map_values(|p: Seq<char>| NoteView::ProfileRemoved(p))
    } else {
        Seq::empty()
    })
}

proof fn lemma_map_push<A, B>(s: Seq<A>, x: A, f: spec_fn(A) -> B)
    ensures
        s.push(x).map_values(f) == s.map_values(f).push(f(x)),
{
    assert(s.push(x).map_values(f) =~= s.map_values(f).push(f(x)));
}

fn ignored_notes(local: &StrSet, remote: &StrSet, pref: ConflictPreference, notes: &mut Vec<MergeNote>)
    ensures
        note_views(final(notes)@) == note_views(old(notes)@) + if pref == ConflictPreference::Remote {
            missing_from(local@, remote@).map_values(|p: Seq<char>| NoteView::IgnoredRemoved(p))
        } else {
            missing_from(remote@, local@).map_values(|p: Seq<char>| NoteView::IgnoredAdded(p))
        },
{
    let ghost start = note_views(notes@);
    let remote_wins = match pref {
        ConflictPreference::Remote => true,
        ConflictPreference::Local => false,
    };
    let (xs, ys) = if remote_wins {
        (local, remote)
    } else {
        (remote, local)
    };
    let ghost f = if remote_wins {
        |p: Seq<char>| NoteView::IgnoredRemoved(p)
    } else {
        |p: Seq<char>| NoteView::IgnoredAdded(p)
    };
    let mut i: usize = 0;
    while i < xs.len()
        invariant
            i <= xs@.len(),
            note_views(notes@) == start + missing_from(xs@.take(i as int), ys@).map_values(f),
            f == if remote_wins {
                |p: Seq<char>| NoteView::IgnoredRemoved(p)
            } else {
                |p: Seq<char>| NoteView::IgnoredAdded(p)
            },
        decreases xs@.len() - i,
    {
        proof {
            assert(xs@.take(i + 1).drop_last() =~= xs@.take(i as int));
            assert(xs@.take(i + 1).last() == xs@[i as int]);
        }
        let x = xs.at(i);
        if !ys.contains(x.as_str()) {
            let ghost before = notes@;
            let n = if remote_wins {
                MergeNote::IgnoredRemoved(x.clone())
            } else {
                MergeNote::IgnoredAdded(x.clone())
            };
            notes.push(n);
            proof {
                lemma_map_push(before, n, |m: MergeNote| m@);
                lemma_map_push(missing_from(xs@.take(i as int), ys@), x@, f);
                assert(start + missing_from(xs@.take(i + 1), ys@).map_values(f) =~= (start + missing_from(xs@.take(i as int), ys@).map_values(f)).push(f(x@)));
            }
        }
        i = i + 1;
    }
    proof {
        assert(xs@.take(xs@.len() as int) =~= xs@);
    }
}

fn same_opt_path(a: &Option<String>, b: &Option<String>) -> (r: bool)
    ensures
        r == (path_opt(*a) == path_opt(*b)),
{
    match (a, b) {
        (Some(x), Some(y)) => same_path(x.as_str(), y.as_str()),
        (None, None) => true,
        _ => false,
    }
}

fn same_texts(a: &Vec<String>, b: &Vec<String>) -> (r: bool)
    ensures
        r == (texts(a@) == texts(b@)),
{
    if a.len() != b.len() {
        assert(texts(a@).len() != texts(b@).len());
        return false;
    }
    let mut i: usize = 0;
    while i < a.len()
        invariant
            i <= a@.len(),
            a@.len() == b@.len(),
            forall|k: int| 0 <= k < i ==> a@[k]@ == b@[k]@,
        decreases a@.len() - i,
    {
        if !crate::text::str_eq(a[i].as_str(), b[i].as_str()) {
            assert(texts(a@)[i as int] != texts(b@)[i as int]);
            return false;
        }
        i = i + 1;
    }
    assert(texts(a@) =~= texts(b@));
    true
}

fn copy_opt(o: &Option<String>) -> (r: Option<String>)
    ensures
        r == *o,
{
    match o {
        Some(s) => Some(s.clone()),
        None => None,
    }
}

fn notes_for_app(name: &String, la: Option<&Application>, ra: &Application, pref: ConflictPreference, notes: &mut Vec<MergeNote>)
    ensures
        note_views(final(notes)@) == note_views(old(notes)@) + app_notes_for(
            name@,
            match la {
                Some(a) => Some(*a),
                None => None,
            },
            *ra,
            pref,
        ),
{
    let ghost start = notes@;
    match la {
        None => {
            notes.push(MergeNote::AppAdded(name.clone()));
            proof {
                lemma_map_push(start, notes@.last(), |m: MergeNote| m@);
                assert(note_views(notes@) =~= note_views(start) + seq![NoteView::AppAdded(name@)]);
            }
        },
        Some(la) => {
            if la.is_dir != ra.is_dir {
                let kept_local = match pref {
                    ConflictPreference::Local => true,
                    ConflictPreference::Remote => false,
                };
                notes.push(MergeNote::IsDir { app: name.clone(), local: la.is_dir, remote: ra.is_dir, kept_local });
                proof {
                    lemma_map_push(start, notes@.last(), |m: MergeNote| m@);
                    assert(note_views(notes@) =~= note_views(start) + app_notes_for(name@, Some(*la), *ra, pref));
                }
            } else {
                match pref {
                    ConflictPreference::Local => {
                        assert(note_views(notes@) =~= note_views(start) + app_notes_for(name@, Some(*la), *ra, pref));
                    },
                    ConflictPreference::Remote => {
                        let ghost mid0 = notes@;
                        if !same_opt_path(&la.primary_config, &ra.primary_config) {
                            notes.push(MergeNote::PrimaryConfig {
                                app: name.clone(),
                                local: copy_opt(&la.primary_config),
                                remote: copy_opt(&ra.primary_config),
                            });
                            proof {
                                lemma_map_push(mid0, notes@.last(), |m: MergeNote| m@);
                            }
                        }
                        let ghost mid = notes@;
                        if !same_texts(&la.ignore, &ra.ignore) {
                            notes.push(MergeNote::IgnoreKeptRemote { app: name.clone(), count: ra.ignore.len() });
                            proof {
                                lemma_map_push(mid, notes@.last(), |m: MergeNote| m@);
                            }
                        }
                        assert(note_views(notes@) =~= note_views(start) + app_notes_for(name@, Some(*la), *ra, pref));
                    },
                }
            }
        },
    }
}

fn app_notes_of(local: &StrMap<Application>, remote: &StrMap<Application>, pref: ConflictPreference, notes: &mut Vec<MergeNote>)
    ensures
        note_views(final(notes)@) == note_views(old(notes)@) + app_notes(local@, remote@, pref),
{
    let ghost start = note_views(notes@);
    let mut i: usize = 0;
    while i < remote.len()
        invariant
            i <= remote@.len(),
            note_views(notes@) == start + app_notes(local@, remote@.take(i as int), pref),
        decreases remote@.len() - i,
    {
        proof {
            assert(remote@.take(i + 1).drop_last() =~= remote@.take(i as int));
            assert(remote@.take(i + 1).last() == remote@[i as int]);
        }
        let name = remote.key_at(i);
        let ra = remote.value_at(i);
        let la = local.get(name.as_str());
        notes_for_app(name, la, ra, pref, notes);
        proof {
            assert(match la {
                Some(a) => Some(*a),
                None => None,
            } == map_get(local@, name@));
        }
        i = i + 1;
    }
    proof {
        assert(remote@.take(remote@.len() as int) =~= remote@);
    }
}

/// Notes each key of `xs` that `ys` lacks, as a dropped app (`apps`) or a dropped profile.
fn removal_notes<V, W>(xs: &StrMap<V>, ys: &StrMap<W>, apps: bool, notes: &mut Vec<MergeNote>)
    ensures
        note_views(final(notes)@) == note_views(old(notes)@) + missing_from(keys_of(xs@), keys_of(ys@)).map_values(
            if apps {
                |a: Seq<char>| NoteView::AppRemoved(a)
            } else {
                |a: Seq<char>| NoteView::ProfileRemoved(a)
            },
        ),
{
    let ghost start = note_views(notes@);
    let ghost f = if apps {
        |a: Seq<char>| NoteView::AppRemoved(a)
    } else {
        |a: Seq<char>| NoteView::ProfileRemoved(a)
    };
    let ghost kx = keys_of(xs@);
    let ghost ky = keys_of(ys@);
    let mut i: usize = 0;
    while i < xs.len()
        invariant
            i <= xs@.len(),
            kx == keys_of(xs@),
            ky == keys_of(ys@),
            note_views(notes@) == start + missing_from(kx.take(i as int), ky).map_values(f),
            f == if apps {
                |a: Seq<char>| NoteView::AppRemoved(a)
            } else {
                |a: Seq<char>| NoteView::ProfileRemoved(a)
            },
        decreases xs@.len() - i,
    {
        proof {
            assert(kx.take(i + 1).drop_last() =~= kx.take(i as int));
            assert(kx.take(i + 1).last() == kx[i as int]);
        }
        let x = xs.key_at(i);
        let present = ys.contains_key(x.as_str());
        proof {
            assert(ky.contains(x@) == has_key(ys@, x@)) by {
                if ky.contains(x@) {
                    let j = choose|j: int| 0 <= j < ky.len() && ky[j] == x@;
                    assert(ys@[j].0 == x@);
                }
                if has_key(ys@, x@) {
                    let j = choose|j: int| 0 <= j < ys@.len() && (#[trigger] ys@[j]).0 == x@;
                    assert(ky[j] == x@);
                }
            }
        }
        if !present {
            let ghost before = notes@;
            let n = if apps {
                MergeNote::AppRemoved(x.clone())
            } else {
                MergeNote::ProfileRemoved(x.clone())
            };
            notes.push(n);
            proof {
                lemma_map_push(before, n, |m: MergeNote| m@);
                lemma_map_push(missing_from(kx.take(i as int), ky), x@, f);
            }
        }
        i = i + 1;
    }
    proof {
        assert(kx.take(kx.len() as int) =~= kx);
    }
}

fn kept_apps_of(apps: &StrSet, la: &StrMap<Application>, ra: &StrMap<Application>) -> (r: Vec<String>)
    ensures
        texts(r@) == kept_apps(apps@, la@, ra@),
{
    let mut out: Vec<String> = Vec::new();
    let mut i: usize = 0;
    while i < apps.len()
        invariant
            i <= apps@.len(),
            texts(out@) == kept_apps(apps@.take(i as int), la@, ra@),
        decreases apps@.len() - i,
    {
        proof {
            assert(apps@.take(i + 1).drop_last() =~= apps@.take(i as int));
            assert(apps@.take(i + 1).last() == apps@[i as int]);
        }
        let a = apps.at(i);
        if !(la.contains_key(a.as_str()) && !ra.contains_key(a.as_str())) {
            let ghost before = out@;
            out.push(a.clone());
            proof {
                lemma_map_push(before, out@.last(), |s: String| s@);
            }
        }
        i = i + 1;
    }
    proof {
        assert(apps@.take(apps@.len() as int) =~= apps@);
    }
    out
}

fn notes_for_profile(
    name: &String,
    lp: Option<&Profile>,
    rp: &Profile,
    la: &StrMap<Application>,
    ra: &StrMap<Application>,
    pref: ConflictPreference,
    notes: &mut Vec<MergeNote>,
)
    ensures
        note_views(final(notes)@) == note_views(old(notes)@) + profile_notes_for(
            name@,
            match lp {
                Some(p) => Some(*p),
                None => None,
            },
            *rp,
            la@,
            ra@,
            pref,
        ),
{
    let ghost start = notes@;
    match lp {
        None => {
            notes.push(MergeNote::ProfileAdded(name.clone()));
            proof {
                lemma_map_push(start, notes@.last(), |m: MergeNote| m@);
                assert(note_views(notes@) =~= note_views(start) + seq![NoteView::ProfileAdded(name@)]);
            }
        },
        Some(lp) => {
            let remote_wins = match pref {
                ConflictPreference::Remote => true,
                ConflictPreference::Local => false,
            };
            let ghost xs_v = if remote_wins {
                kept_apps(lp.apps@, la@, ra@)
            } else {
                rp.apps@
            };
            let ghost ys_v = if remote_wins {
                rp.apps@
            } else {
                lp.apps@
            };
            let ghost f = if remote_wins {
                |a: Seq<char>| NoteView::ProfileAppRemoved { profile: name@, app: a }
            } else {
                |a: Seq<char>| NoteView::ProfileAppAdded { profile: name@, app: a }
            };
            let xs: Vec<String> = if remote_wins {
                kept_apps_of(&lp.apps, la, ra)
            } else {
                let mut v: Vec<String> = Vec::new();
                let mut k: usize = 0;
                while k < rp.apps.len()
                    invariant
                        k <= rp.apps@.len(),
                        texts(v@) == rp.apps@.take(k as int),
                    decreases rp.apps@.len() - k,
                {
                    let ghost before = v@;
                    v.push(rp.apps.at(k).clone());
                    proof {
                        lemma_map_push(before, v@.last(), |s: String| s@);
                        assert(rp.apps@.take(k + 1) =~= rp.apps@.take(k as int).push(rp.apps@[k as int]));
                    }
                    k = k + 1;
                }
                assert(rp.apps@.take(rp.apps@.len() as int) =~= rp.apps@);
                v
            };
            let ys: &StrSet = if remote_wins {
                &rp.apps
            } else {
                &lp.apps
            };
            let mut i: usize = 0;
            while i < xs.len()
                invariant
                    i <= xs@.len(),
                    texts(xs@) == xs_v,
                    ys@ == ys_v,
                    note_views(notes@) == note_views(start) + missing_from(xs_v.take(i as int), ys_v).map_values(f),
                    f == if remote_wins {
                        |a: Seq<char>| NoteView::ProfileAppRemoved { profile: name@, app: a }
                    } else {
                        |a: Seq<char>| NoteView::ProfileAppAdded { profile: name@, app: a }
                    },
                decreases xs@.len() - i,
            {
                proof {
                    assert(xs_v.take(i + 1).drop_last() =~= xs_v.take(i as int));
                    assert(xs_v.take(i + 1).last() == xs_v[i as int]);
                    assert(xs_v[i as int] == xs@[i as int]@);
                }
                let x = &xs[i];
                if !ys.contains(x.as_str()) {
                    let ghost before = notes@;
                    let n = if remote_wins {
                        MergeNote::ProfileAppRemoved { profile: name.clone(), app: x.clone() }
                    } else {
                        MergeNote::ProfileAppAdded { profile: name.clone(), app: x.clone() }
                    };
                    notes.push(n);
                    proof {
                        lemma_map_push(before, n, |m: MergeNote| m@);
                        lemma_map_push(missing_from(xs_v.take(i as int), ys_v), x@, f);
                    }
                }
                i = i + 1;
            }
            proof {
                assert(xs_v.take(xs_v.len() as int) =~= xs_v);
            }
        },
    }
}

fn profile_notes_of(
    lp: &StrMap<Profile>,
    rp: &StrMap<Profile>,
    la: &StrMap<Application>,
    ra: &StrMap<Application>,
    pref: ConflictPreference,
    notes: &mut Vec<MergeNote>,
)
    ensures
        note_views(final(notes)@) == note_views(old(notes)@) + profile_notes(lp@, rp@, la@, ra@, pref),
{
    let ghost start = note_views(notes@);
    let mut i: usize = 0;
    while i < rp.len()
        invariant
            i <= rp@.len(),
            note_views(notes@) == start + profile_notes(lp@, rp@.take(i as int), la@, ra@, pref),
        decreases rp@.len() - i,
    {
        proof {
            assert(rp@.take(i + 1).drop_last() =~= rp@.take(i as int));
            assert(rp@.take(i + 1).last() == rp@[i as int]);
        }
        let name = rp.key_at(i);
        let p = rp.value_at(i);
        let l = lp.get(name.as_str());
        notes_for_profile(name, l, p, la, ra, pref, notes);
        proof {
            assert(match l {
                Some(x) => Some(*x),
                None => None,
            } == map_get(lp@, name@));
        }
        i = i + 1;
    }
    proof {
        assert(rp@.take(rp@.len() as int) =~= rp@);
    }
}

/// Everything a merge of `local` with `remote` reports (see [`merge_notes`]).
pub fn merge_notes_of(local: &SharedAppConfig, remote: &SharedAppConfig, pref: ConflictPreference) -> (r: Vec<MergeNote>)
    ensures
        note_views(r@) == merge_notes(*local, *remote, pref),
{
    let mut notes: Vec<MergeNote> = Vec::new();
    assert(note_views(notes@) =~= Seq::<NoteView>::empty());
    ignored_notes(&local.ignored, &remote.ignored, pref, &mut notes);
    app_notes_of(&local.apps, &remote.apps, pref, &mut notes);
    let remote_wins = match pref {
        ConflictPreference::Remote => true,
        ConflictPreference::Local => false,
    };
    let ghost after_apps = note_views(notes@);
    if remote_wins {
        removal_notes(&local.apps, &remote.apps, true, &mut notes);
    }
    let ghost after_removals = note_views(notes@);
    profile_notes_of(&local.profiles, &remote.profiles, &local.apps, &remote.apps, pref, &mut notes);
    let ghost after_profiles = note_views(notes@);
    if remote_wins {
        removal_notes(&local.profiles, &remote.profiles, false, &mut notes);
    }
    proof {
        if !remote_wins {
            assert(after_removals =~= after_apps + Seq::<NoteView>::empty());
            assert(note_views(notes@) =~= after_profiles + Seq::<NoteView>::empty());
        }
        assert(note_views(notes@) =~= merge_notes(*local, *remote, pref));
    }
    notes
}

/// Some entry of `s` at or after position `from` has key `k`.
pub open spec fn key_from<V>(s: Seq<(Seq<char>, V)>, from: int, k: Seq<char>) -> bool {
    exists|j: int| from <= j < s.len() && (#[trigger] s[j]).0 == k
}

/// `q` is profile `lp` merged with the remote's `rp`, keeping local: the apps of both, and
/// the links of both with the remote's winning where both have one.
pub open spec fn merged_profile(lp: Profile, rp: Profile, q: Profile) -> bool {
    &&& forall|x: Seq<char>| #[trigger] q.apps@.contains(x) == (lp.apps@.contains(x) || rp.apps@.contains(x))
    &&& forall|a: Seq<char>| #[trigger] map_get(q.app_sources@, a) == if has_key(rp.app_sources@, a) {
        map_get(rp.app_sources@, a)
    } else {
        map_get(lp.app_sources@, a)
    }
}

/// `merged` is the merge of `local` with `remote`. When the remote side wins, the merge is
/// the remote config (with the local remote URL). When the local side wins: the global
/// ignore patterns of both; every local app, and the apps only the remote has; every
/// profile of either side, the ones both have merged (see [`merged_profile`]).
pub open spec fn merge_ok(local: SharedAppConfig, remote: SharedAppConfig, pref: ConflictPreference, merged: SharedAppConfig) -> bool {
    if pref == ConflictPreference::Remote {
        &&& merged.remote == local.remote
        &&& merged.profiles == remote.profiles
        &&& merged.apps == remote.apps
        &&& merged.ignored == remote.ignored
    } else {
        &&& merged.remote == local.remote
        &&& forall|x: Seq<char>| #[trigger] merged.ignored@.contains(x) == (local.ignored@.contains(x) || remote.ignored@.contains(x))
        &&& forall|k: Seq<char>| #[trigger] map_get(merged.apps@, k) == if has_key(local.apps@, k) {
            map_get(local.apps@, k)
        } else {
            map_get(remote.apps@, k)
        }
        &&& forall|k: Seq<char>| match (map_get(local.profiles@, k), map_get(remote.profiles@, k)) {
            (Some(lp), Some(rp)) => #[trigger] map_get(merged.profiles@, k) matches Some(q) && merged_profile(lp, rp, q),
            (Some(lp), None) => map_get(merged.profiles@, k) == Some(lp),
            (None, Some(rp)) => map_get(merged.profiles@, k) == Some(rp),
            (None, None) => map_get(merged.profiles@, k) is None,
        }
    }
}

proof fn lemma_last_key_fresh<V>(s: Seq<(Seq<char>, V)>, n: int)
    requires
        crate::collections::keys_sorted(s),
        0 < n <= s.len(),
    ensures
        !key_from(s, n, s[n - 1].0),
        forall|k: Seq<char>| #[trigger] key_from(s, n - 1, k) == (key_from(s, n, k) || k == s[n - 1].0),
        map_get(s, s[n - 1].0) == Some(s[n - 1].1),
{
    if key_from(s, n, s[n - 1].0) {
        let j = choose|j: int| n <= j < s.len() && (#[trigger] s[j]).0 == s[n - 1].0;
        assert(crate::collections::text_lt(s[n - 1].0, s[j].0));
        crate::collections::lemma_text_lt_irreflexive(s[n - 1].0);
    }
    assert forall|k: Seq<char>| #[trigger] key_from(s, n - 1, k) == (key_from(s, n, k) || k == s[n - 1].0) by {
        if k == s[n - 1].0 {
            assert(s[n - 1].0 == k);
        }
        if key_from(s, n, k) {
            let j = choose|j: int| n <= j < s.len() && (#[trigger] s[j]).0 == k;
            assert(n - 1 <= j);
        }
    }
    crate::collections::lemma_map_get_at(s, n - 1);
}

proof fn lemma_key_from_all<V>(s: Seq<(Seq<char>, V)>, k: Seq<char>)
    ensures
        key_from(s, 0, k) == has_key(s, k),
{
}

/// Adds the remote's apps that the local side lacks.
fn merge_apps_keeping_local(apps: &mut StrMap<Application>, remote: StrMap<Application>)
    ensures
        forall|k: Seq<char>| #[trigger] map_get(final(apps)@, k) == if has_key(old(apps)@, k) {
            map_get(old(apps)@, k)
        } else {
            map_get(remote@, k)
        },
{
    let ghost rv = remote@;
    let ghost l0 = apps@;
    let mut entries = remote.into_entries();
    let ghost n0 = entries@.len();
    proof {
        assert forall|k: Seq<char>| #[trigger] map_get(apps@, k) == if has_key(l0, k) {
            map_get(l0, k)
        } else if key_from(rv, n0 as int, k) {
            map_get(rv, k)
        } else {
            None
        } by {
            if !has_key(l0, k) {
                assert(map_get(l0, k) is None);
            }
        }
    }
    while entries.len() > 0
        invariant
            crate::collections::keys_sorted(rv),
            rv.len() == n0,
            entries@.len() <= n0,
            forall|j: int| 0 <= j < entries@.len() ==> (#[trigger] entries@[j]).0@ == rv[j].0 && entries@[j].1 == rv[j].1,
            forall|k: Seq<char>| #[trigger] map_get(apps@, k) == if has_key(l0, k) {
                map_get(l0, k)
            } else if key_from(rv, entries@.len() as int, k) {
                map_get(rv, k)
            } else {
                None
            },
        decreases entries@.len(),
    {
        let ghost n = entries@.len() as int;
        let (k, v) = match entries.pop() {
            Some(e) => e,
            None => {
                assert(false);
                return;
            },
        };
        proof {
            lemma_last_key_fresh(rv, n);
        }
        let ghost before = apps@;
        if !apps.contains_key(k.as_str()) {
            apps.insert(k, v);
        }
        proof {
            assert forall|key: Seq<char>| #[trigger] map_get(apps@, key) == if has_key(l0, key) {
                map_get(l0, key)
            } else if key_from(rv, n - 1, key) {
                map_get(rv, key)
            } else {
                None
            } by {
                assert(key_from(rv, n - 1, key) == (key_from(rv, n, key) || key == rv[n - 1].0));
                if key != rv[n - 1].0 {
                    assert(map_get(before, key) == map_get(apps@, key));
                }
            }
        }
    }
    proof {
        assert forall|k: Seq<char>| #[trigger] map_get(apps@, k) == if has_key(l0, k) {
            map_get(l0, k)
        } else {
            map_get(rv, k)
        } by {
            lemma_key_from_all(rv, k);
            if !has_key(rv, k) {
                assert(map_get(rv, k) is None);
            }
        }
    }
}

/// Merges the remote's profile `rp` into the local profile `lp` (see [`merged_profile`]).
fn merge_profile_into(lp: &mut Profile, rp: Profile)
    ensures
        merged_profile(*old(lp), rp, *final(lp)),
{
    let ghost lp0 = *lp;
    let mut i: usize = 0;
    while i < rp.apps.len()
        invariant
            i <= rp.apps@.len(),
            lp.app_sources == lp0.app_sources,
            forall|x: Seq<char>| #[trigger] lp.apps@.contains(x) == (lp0.apps@.contains(x) || rp.apps@.take(i as int).contains(x)),
        decreases rp.apps@.len() - i,
    {
        lp.apps.insert(rp.apps.at(i).clone());
        proof {
            assert forall|x: Seq<char>| #[trigger] rp.apps@.take(i + 1).contains(x) == (rp.apps@.take(i as int).contains(x) || x == rp.apps@[i as int]) by {
                let t1 = rp.apps@.take(i + 1);
                let t0 = rp.apps@.take(i as int);
                if t1.contains(x) {
                    let j = choose|j: int| 0 <= j < t1.len() && t1[j] == x;
                    if j < i {
                        assert(t0[j] == x);
                    }
                }
                if t0.contains(x) {
                    let j = choose|j: int| 0 <= j < t0.len() && t0[j] == x;
                    assert(t1[j] == x);
                }
                if x == rp.apps@[i as int] {
                    assert(t1[i as int] == x);
                }
            }
        }
        i = i + 1;
    }
    proof {
        assert(rp.apps@.take(rp.apps@.len() as int) =~= rp.apps@);
    }
    let ghost rs = rp.app_sources@;
    let ghost mid_apps = lp.apps;
    let ghost s0 = lp.app_sources@;
    let mut entries = rp.app_sources.into_entries();
    let ghost n0 = entries@.len();
    while entries.len() > 0
        invariant
            crate::collections::keys_sorted(rs),
            rs.len() == n0,
            entries@.len() <= n0,
            lp.apps == mid_apps,
            s0 == lp0.app_sources@,
            forall|j: int| 0 <= j < entries@.len() ==> (#[trigger] entries@[j]).0@ == rs[j].0 && entries@[j].1 == rs[j].1,
            forall|a: Seq<char>| #[trigger] map_get(lp.app_sources@, a) == if key_from(rs, entries@.len() as int, a) {
                map_get(rs, a)
            } else {
                map_get(s0, a)
            },
        decreases entries@.len(),
    {
        let ghost n = entries@.len() as int;
        let (k, v) = match entries.pop() {
            Some(e) => e,
            None => {
                assert(false);
                return;
            },
        };
        proof {
            lemma_last_key_fresh(rs, n);
        }
        let ghost before = lp.app_sources@;
        lp.app_sources.insert(k, v);
        proof {
            assert forall|a: Seq<char>| #[trigger] map_get(lp.app_sources@, a) == if key_from(rs, n - 1, a) {
                map_get(rs, a)
            } else {
                map_get(s0, a)
            } by {
                assert(key_from(rs, n - 1, a) == (key_from(rs, n, a) || a == rs[n - 1].0));
                if a != rs[n - 1].0 {
                    assert(map_get(before, a) == map_get(lp.app_sources@, a));
                }
            }
        }
    }
    proof {
        assert forall|a: Seq<char>| #[trigger] map_get(lp.app_sources@, a) == if has_key(rs, a) {
            map_get(rs, a)
        } else {
            map_get(s0, a)
        } by {
            lemma_key_from_all(rs, a);
        }
    }
}

/// Merges the remote's profiles into the local ones, keeping local (see [`merge_ok`]).
fn merge_profiles_keeping_local(profiles: &mut StrMap<Profile>, remote: StrMap<Profile>)
    ensures
        forall|k: Seq<char>| match (map_get(old(profiles)@, k), map_get(remote@, k)) {
            (Some(lp), Some(rp)) => #[trigger] map_get(final(profiles)@, k) matches Some(q) && merged_profile(lp, rp, q),
            (Some(lp), None) => map_get(final(profiles)@, k) == Some(lp),
            (None, Some(rp)) => map_get(final(profiles)@, k) == Some(rp),
            (None, None) => map_get(final(profiles)@, k) is None,
        },
{
    let ghost rv = remote@;
    let ghost l0 = profiles@;
    let mut entries = remote.into_entries();
    let ghost n0 = entries@.len();
    while entries.len() > 0
        invariant
            crate::collections::keys_sorted(rv),
            rv.len() == n0,
            entries@.len() <= n0,
            forall|j: int| 0 <= j < entries@.len() ==> (#[trigger] entries@[j]).0@ == rv[j].0 && entries@[j].1 == rv[j].1,
            forall|k: Seq<char>| if key_from(rv, entries@.len() as int, k) {
                match (map_get(l0, k), map_get(rv, k)) {
                    (Some(lp), Some(rp)) => #[trigger] map_get(profiles@, k) matches Some(q) && merged_profile(lp, rp, q),
                    (None, Some(rp)) => map_get(profiles@, k) == Some(rp),
                    _ => true,
                }
            } else {
                map_get(profiles@, k) == map_get(l0, k)
            },
        decreases entries@.len(),
    {
        let ghost n = entries@.len() as int;
        let (k, v) = match entries.pop() {
            Some(e) => e,
            None => {
                assert(false);
                return;
            },
        };
        proof {
            lemma_last_key_fresh(rv, n);
        }
        let ghost before = profiles@;
        match profiles.remove(k.as_str()) {
            Some(lp) => {
                let mut lp = lp;
                merge_profile_into(&mut lp, v);
                profiles.insert(k, lp);
            },
            None => {
                profiles.insert(k, v);
            },
        }
        proof {
            assert forall|key: Seq<char>| if key_from(rv, n - 1, key) {
                match (map_get(l0, key), map_get(rv, key)) {
                    (Some(lp), Some(rp)) => #[trigger] map_get(profiles@, key) matches Some(q) && merged_profile(lp, rp, q),
                    (None, Some(rp)) => map_get(profiles@, key) == Some(rp),
                    _ => true,
                }
            } else {
                map_get(profiles@, key) == map_get(l0, key)
            } by {
                assert(key_from(rv, n - 1, key) == (key_from(rv, n, key) || key == rv[n - 1].0));
                if key != rv[n - 1].0 {
                    assert(map_get(before, key) == map_get(profiles@, key));
                }
            }
        }
    }
    proof {
        assert forall|k: Seq<char>| match (map_get(l0, k), map_get(rv, k)) {
            (Some(lp), Some(rp)) => #[trigger] map_get(profiles@, k) matches Some(q) && merged_profile(lp, rp, q),
            (Some(lp), None) => map_get(profiles@, k) == Some(lp),
            (None, Some(rp)) => map_get(profiles@, k) == Some(rp),
            (None, None) => map_get(profiles@, k) is None,
        } by {
            lemma_key_from_all(rv, k);
        }
    }
}

/// Merges the remote shared config into the local one, as a sync does before it rebases:
/// returns the merged config (see [`merge_ok`]) and what the merge settled (see
/// [`merge_notes`]).
pub fn merge_shared(local: SharedAppConfig, remote: SharedAppConfig, pref: ConflictPreference) -> (r: (SharedAppConfig, Vec<MergeNote>))
    ensures
        merge_ok(local, remote, pref, r.0),
        note_views(r.1@) == merge_notes(local, remote, pref),
{
    let notes = merge_notes_of(&local, &remote, pref);
    match pref {
        ConflictPreference::Remote => {
            let merged = SharedAppConfig { remote: local.remote, profiles: remote.profiles, apps: remote.apps, ignored: remote.ignored };
            (merged, notes)
        },
        ConflictPreference::Local => {
            let ghost l = local;
            let ghost r = remote;
            let mut merged = local;
            let mut i: usize = 0;
            while i < remote.ignored.len()
                invariant
                    i <= remote.ignored@.len(),
                    remote == r,
                    merged.apps == l.apps,
                    merged.profiles == l.profiles,
                    merged.remote == l.remote,
                    forall|x: Seq<char>| #[trigger] merged.ignored@.contains(x) == (l.ignored@.contains(x) || remote.ignored@.take(i as int).contains(x)),
                decreases remote.ignored@.len() - i,
            {
                merged.ignored.insert(remote.ignored.at(i).clone());
                proof {
                    let t1 = remote.ignored@.take(i + 1);
                    let t0 = remote.ignored@.take(i as int);
                    assert forall|x: Seq<char>| #[trigger] t1.contains(x) == (t0.contains(x) || x == remote.ignored@[i as int]) by {
                        if t1.contains(x) {
                            let j = choose|j: int| 0 <= j < t1.len() && t1[j] == x;
                            if j < i {
                                assert(t0[j] == x);
                            }
                        }
                        if t0.contains(x) {
                            let j = choose|j: int| 0 <= j < t0.len() && t0[j] == x;
                            assert(t1[j] == x);
                        }
                        if x == remote.ignored@[i as int] {
                            assert(t1[i as int] == x);
                        }
                    }
                }
                i = i + 1;
            }
            proof {
                assert(remote.ignored@.take(remote.ignored@.len() as int) =~= remote.ignored@);
            }
            merge_apps_keeping_local(&mut merged.apps, remote.apps);
            merge_profiles_keeping_local(&mut merged.profiles, remote.profiles);
            (merged, notes)
        },
    }
}

/// Names what `format!("{:?}", o)` writes for an optional path: `None`, or `Some(` and
/// the path quoted with Rust's debug escapes and `)`.
pub uninterp spec fn debug_text(o: Option<Seq<char>>) -> Seq<char>;

/// `format!("{:?}", o)` on an optional path (`Debug` of `Option`, whose text std's
/// `Debug` impls define). Only the name of the result is stated.
#[verifier::external_body]
fn debug_of(o: &Option<String>) -> (r: String)
    ensures
        r@ == debug_text(opt_view(*o)),
{
    format!("{:?}", o.as_ref().map(std::path::Path::new))
}

/// `true` or `false`, as `format!("{}", b)` writes it.
pub open spec fn bool_text(b: bool) -> Seq<char> {
    if b {
        "true"@
    } else {
        "false"@
    }
}

/// The line shown for a merge note.
pub open spec fn note_text(n: NoteView) -> Seq<char> {
    match n {
        NoteView::IgnoredAdded(p) => "ignored added: '"@ + p + "' (kept local)"@,
        NoteView::IgnoredRemoved(p) => "ignored removed: '"@ + p + "' (remote)"@,
        NoteView::IsDir { app, local, remote, kept_local } => "apps."@ + app + ".is_dir: local="@ + bool_text(local) + ", remote="@
            + bool_text(remote) + ", kept "@ + (if kept_local {
            "local"@
        } else {
            "remote"@
        }),
        NoteView::PrimaryConfig { app, local, remote } => "apps."@ + app + ".primary_config: local="@ + debug_text(local)
            + ", remote="@ + debug_text(remote) + ", kept remote"@,
        NoteView::IgnoreKeptRemote { app, count } => "apps."@ + app + ".ignore: kept remote ("@ + crate::text::decimal(count)
            + " patterns)"@,
        NoteView::AppAdded(a) => "apps."@ + a + ": added from remote"@,
        NoteView::AppRemoved(a) => "apps."@ + a + ": removed (not in remote)"@,
        NoteView::ProfileAppRemoved { profile, app } => "profiles."@ + profile + ".apps removed: '"@ + app + "' (remote)"@,
        NoteView::ProfileAppAdded { profile, app } => "profiles."@ + profile + ".apps added: '"@ + app + "' (remote)"@,
        NoteView::ProfileAdded(p) => "profiles."@ + p + ": added from remote"@,
        NoteView::ProfileRemoved(p) => "profiles."@ + p + ": removed (not in remote)"@,
    }
}

fn bool_str(b: bool) -> (r: &'static str)
    ensures
        r@ == bool_text(b),
{
    if b {
        "true"
    } else {
        "false"
    }
}

impl MergeNote {
    /// The line shown for this note.
    pub fn message(&self) -> (r: String)
        ensures
            r@ == note_text(self@),
    {
        match self {
            MergeNote::IgnoredAdded(p) => {
                let mut r = concat("ignored added: '", p.as_str());
                append_str(&mut r, "' (kept local)");
                r
            },
            MergeNote::IgnoredRemoved(p) => {
                let mut r = concat("ignored removed: '", p.as_str());
                append_str(&mut r, "' (remote)");
                r
            },
            MergeNote::IsDir { app, local, remote, kept_local } => {
                let mut r = concat("apps.", app.as_str());
                append_str(&mut r, ".is_dir: local=");
                append_str(&mut r, bool_str(*local));
                append_str(&mut r, ", remote=");
                append_str(&mut r, bool_str(*remote));
                append_str(&mut r, ", kept ");
                append_str(&mut r, if *kept_local { "local" } else { "remote" });
                r
            },
            MergeNote::PrimaryConfig { app, local, remote } => {
                let mut r = concat("apps.", app.as_str());
                append_str(&mut r, ".primary_config: local=");
                append_str(&mut r, debug_of(local).as_str());
                append_str(&mut r, ", remote=");
                append_str(&mut r, debug_of(remote).as_str());
                append_str(&mut r, ", kept remote");
                r
            },
            MergeNote::IgnoreKeptRemote { app, count } => {
                let mut r = concat("apps.", app.as_str());
                append_str(&mut r, ".ignore: kept remote (");
                append_str(&mut r, decimal_of(*count as u64).as_str());
                append_str(&mut r, " patterns)");
                r
            },
            MergeNote::AppAdded(a) => {
                let mut r = concat("apps.", a.as_str());
                append_str(&mut r, ": added from remote");
                r
            },
            MergeNote::AppRemoved(a) => {
                let mut r = concat("apps.", a.as_str());
                append_str(&mut r, ": removed (not in remote)");
                r
            },
            MergeNote::ProfileAppRemoved { profile, app } => {
                let mut r = concat("profiles.", profile.as_str());
                append_str(&mut r, ".apps removed: '");
                append_str(&mut r, app.as_str());
                append_str(&mut r, "' (remote)");
                r
            },
            MergeNote::ProfileAppAdded { profile, app } => {
                let mut r = concat("profiles.", profile.as_str());
                append_str(&mut r, ".apps added: '");
                append_str(&mut r, app.as_str());
                append_str(&mut r, "' (remote)");
                r
            },
            MergeNote::ProfileAdded(p) => {
                let mut r = concat("profiles.", p.as_str());
                append_str(&mut r, ": added from remote");
                r
            },
            MergeNote::ProfileRemoved(p) => {
                let mut r = concat("profiles.", p.as_str());
                append_str(&mut r, ": removed (not in remote)");
                r
            },
        }
    }
}

/// The lines shown for merge notes, in order.
pub fn note_messages(notes: &Vec<MergeNote>) -> (r: Vec<String>)
    ensures
        r@.len() == notes@.len(),
        forall|i: int| 0 <= i < r@.len() ==> #[trigger] r@[i]@ == note_text(notes@[i]@),
{
    let mut out: Vec<String> = Vec::new();
    let mut i: usize = 0;
    while i < notes.len()
        invariant
            i <= notes@.len(),
            out@.len() == i,
            forall|k: int| 0 <= k < i ==> #[trigger] out@[k]@ == note_text(notes@[k]@),
        decreases notes@.len() - i,
    {
        out.push(notes[i].message());
        i = i + 1;
    }
    out
}

/// How a sync that rebased (or resolved its rebase) ends: clean when nothing was settled
/// and nothing backed up; a config conflict when only the config needed settling; else a
/// file conflict reporting the backups.
pub fn sync_outcome(config_conflicts: Vec<String>, backups: Vec<String>, preference: ConflictPreference) -> (r: SyncResult)
    ensures
        config_conflicts@.len() == 0 && backups@.len() == 0 ==> r is Clean,
        config_conflicts@.len() > 0 && backups@.len() == 0 ==> r == (SyncResult::ConfigConflict { resolved: config_conflicts }),
        backups@.len() > 0 ==> (r matches SyncResult::FileConflict { config_conflicts: c, file_conflicts: f, backups: b, preference: p }
            && c == config_conflicts && f@.len() == 0 && b == backups && p == preference),
{
    if config_conflicts.len() == 0 && backups.len() == 0 {
        SyncResult::Clean
    } else if backups.len() == 0 {
        SyncResult::ConfigConflict { resolved: config_conflicts }
    } else {
        SyncResult::FileConflict { config_conflicts, file_conflicts: Vec::new(), backups, preference }
    }
}

/// The files in conflict during a rebase, from `git diff --name-only --diff-filter=U`.
pub fn conflict_files(output: &str) -> (r: Vec<String>)
    ensures
        r@.len() == split_lines(output@).len(),
        forall|i: int| 0 <= i < r@.len() ==> #[trigger] r@[i]@ == split_lines(output@)[i],
{
    let c = chars_of(output);
    let ls = lines_of(c.as_slice());
    let mut out: Vec<String> = Vec::new();
    let mut i: usize = 0;
    while i < ls.len()
        invariant
            i <= ls@.len(),
            ls@.len() == split_lines(output@).len(),
            forall|k: int| 0 <= k < ls@.len() ==> #[trigger] ls@[k]@ == split_lines(output@)[k],
            out@.len() == i,
            forall|k: int| 0 <= k < i ==> #[trigger] out@[k]@ == split_lines(output@)[k],
        decreases ls@.len() - i,
    {
        out.push(string_from_chars(ls[i].as_slice()));
        i = i + 1;
    }
    out
}

/// What a failed git command reports: its standard output when it wrote nothing to
/// standard error, its standard error when its standard output is blank, else both,
/// each without surrounding white space, on two lines.
pub open spec fn failure_detail(stdout: Seq<char>, stderr: Seq<char>) -> Seq<char> {
    if stderr.len() == 0 {
        trim(stdout)
    } else if trim(stdout).len() == 0 {
        trim(stderr)
    } else {
        trim(stdout) + seq!['\n'] + trim(stderr)
    }
}

/// Computes [`failure_detail`].
pub fn git_failure_detail(stdout: &str, stderr: &str) -> (r: String)
    ensures
        r@ == failure_detail(stdout@, stderr@),
{
    let out = crate::text::trim_str(stdout);
    let err = crate::text::trim_str(stderr);
    let e = chars_of(stderr);
    let o = chars_of(out.as_str());
    if e.len() == 0 {
        out
    } else if o.len() == 0 {
        err
    } else {
        let mut r = out;
        append_str(&mut r, "\n");
        proof {
            reveal_strlit("\n");
        }
        append_str(&mut r, err.as_str());
        r
    }
}

/// A commit that git refused because nothing changed is no failure: the save simply did
/// not commit. `Ok(true)` when a commit was made.
pub fn commit_outcome(result: Result<(), String>) -> (r: Result<bool, String>)
    ensures
        match result {
            Ok(()) => r == Ok::<bool, String>(true),
            Err(e) => if has_infix(e@, "nothing to commit"@) {
                r == Ok::<bool, String>(false)
            } else {
                r == Err::<bool, String>(e)
            },
        },
{
    match result {
        Ok(()) => Ok(true),
        Err(e) => {
            if contains_text(e.as_str(), "nothing to commit") {
                Ok(false)
            } else {
                Err(e)
            }
        },
    }
}

/// The URL of the `origin` remote from `git remote get-url origin`: none when git says
/// there is no such remote.
pub fn remote_outcome(result: Result<String, String>) -> (r: Result<Option<String>, String>)
    ensures
        match result {
            Ok(url) => r == Ok::<Option<String>, String>(Some(url)),
            Err(e) => if has_infix(e@, "No such remote"@) {
                r == Ok::<Option<String>, String>(None)
            } else {
                r == Err::<Option<String>, String>(e)
            },
        },
{
    match result {
        Ok(url) => Ok(Some(url)),
        Err(e) => {
            if contains_text(e.as_str(), "No such remote") {
                Ok(None)
            } else {
                Err(e)
            }
        },
    }
}

// ------------------------------------------------------------------
// Rolling back while preserving apps
// ------------------------------------------------------------------

/// The elements of `xs` that `ys` holds too, in order.
pub open spec fn common(xs: Seq<Seq<char>>, ys: Seq<Seq<char>>) -> Seq<Seq<char>>
    decreases xs.len(),
{
    if xs.len() == 0 {
        Seq::empty()
    } else {
        let r = common(xs.drop_last(), ys);
        if ys.contains(xs.last()) {
            r.push(xs.last())
        } else {
            r
        }
    }
}

/// Splits the apps of the current config by the target commit's config: the apps both
/// have (their files are rolled back) and the apps only the current config has (they are
/// protected), each in name order.
pub fn classify_apps(current: &StrMap<Application>, target: &StrMap<Application>) -> (r: (Vec<String>, Vec<String>))
    ensures
        texts(r.0@) == common(keys_of(current@), keys_of(target@)),
        texts(r.1@) == missing_from(keys_of(current@), keys_of(target@)),
{
    let ghost kc = keys_of(current@);
    let ghost kt = keys_of(target@);
    let mut preserved: Vec<String> = Vec::new();
    let mut protected: Vec<String> = Vec::new();
    let mut i: usize = 0;
    while i < current.len()
        invariant
            i <= current@.len(),
            kc == keys_of(current@),
            kt == keys_of(target@),
            texts(preserved@) == common(kc.take(i as int), kt),
            texts(protected@) == missing_from(kc.take(i as int), kt),
        decreases current@.len() - i,
    {
        proof {
            assert(kc.take(i + 1).drop_last() =~= kc.take(i as int));
            assert(kc.take(i + 1).last() == kc[i as int]);
        }
        let name = current.key_at(i);
        let present = target.contains_key(name.as_str());
        proof {
            assert(kt.contains(name@) == has_key(target@, name@)) by {
                if kt.contains(name@) {
                    let j = choose|j: int| 0 <= j < kt.len() && kt[j] == name@;
                    assert(target@[j].0 == name@);
                }
                if has_key(target@, name@) {
                    let j = choose|j: int| 0 <= j < target@.len() && (#[trigger] target@[j]).0 == name@;
                    assert(kt[j] == name@);
                }
            }
        }
        if present {
            let ghost before = preserved@;
            preserved.push(name.clone());
            proof {
                lemma_map_push(before, preserved@.last(), |s: String| s@);
            }
        } else {
            let ghost before = protected@;
            protected.push(name.clone());
            proof {
                lemma_map_push(before, protected@.last(), |s: String| s@);
            }
        }
        i = i + 1;
    }
    proof {
        assert(kc.take(kc.len() as int) =~= kc);
    }
    (preserved, protected)
}

/// The path, relative to roost, of an app's files in a profile: `profile/app` for a
/// directory app, `profile/misc/app` for a file app.
pub open spec fn rollback_path_of(profile: Seq<char>, app: Seq<char>, is_dir: bool) -> Seq<char> {
    if is_dir {
        profile + "/"@ + app
    } else {
        profile + "/misc/"@ + app
    }
}

/// Computes [`rollback_path_of`].
pub fn rollback_path(profile: &str, app: &str, is_dir: bool) -> (r: String)
    ensures
        r@ == rollback_path_of(profile@, app@, is_dir),
{
    let mut r = profile.to_owned();
    if is_dir {
        append_str(&mut r, "/");
    } else {
        append_str(&mut r, "/misc/");
    }
    append_str(&mut r, app);
    r
}

/// Exactly `x`.
pub open spec fn only(x: Seq<char>) -> spec_fn(Seq<char>) -> bool {
    |y: Seq<char>| y == x
}

/// The elements of `s`.
pub open spec fn among(s: Seq<Seq<char>>) -> spec_fn(Seq<char>) -> bool {
    |y: Seq<char>| s.contains(y)
}

/// App `x` is one whose profile membership is restored into profile `pp` (the profile
/// before the rollback, if it had one of that name).
pub open spec fn gets_app(pp: Option<Profile>, chosen: spec_fn(Seq<char>) -> bool, x: Seq<char>) -> bool {
    &&& chosen(x)
    &&& pp matches Some(p) && p.apps@.contains(x)
}

/// `q` is profile `q0` with the chosen apps that the pre-rollback profile `pp` listed put
/// back, with their links.
pub open spec fn restored_profile(q0: Profile, q: Profile, pp: Option<Profile>, chosen: spec_fn(Seq<char>) -> bool) -> bool {
    &&& forall|z: Seq<char>| #[trigger] q.apps@.contains(z) == (q0.apps@.contains(z) || gets_app(pp, chosen, z))
    &&& forall|z: Seq<char>| #[trigger] map_get(q.app_sources@, z) == if gets_app(pp, chosen, z) && has_key(pp->0.app_sources@, z) {
        map_get(pp->0.app_sources@, z)
    } else {
        map_get(q0.app_sources@, z)
    }
}

/// The profiles `new` are `old` with the chosen apps restored from `pre` (profiles that
/// `old` lacks stay absent).
pub open spec fn profiles_restored(old: Seq<(Seq<char>, Profile)>, new: Seq<(Seq<char>, Profile)>, pre: Seq<(Seq<char>, Profile)>, chosen: spec_fn(Seq<char>) -> bool) -> bool {
    &&& forall|p: Seq<char>| #[trigger] has_key(new, p) == has_key(old, p)
    &&& forall|p: Seq<char>| match #[trigger] map_get(old, p) {
        None => map_get(new, p) is None,
        Some(q0) => map_get(new, p) matches Some(q) && restored_profile(q0, q, map_get(pre, p), chosen),
    }
}

fn restore_app_in_profile(q: &mut Profile, pp: &Profile, app: &String)
    ensures
        restored_profile(*old(q), *final(q), Some(*pp), only(app@)),
{
    if pp.apps.contains(app.as_str()) {
        q.apps.insert(app.clone());
        match pp.app_sources.get(app.as_str()) {
            Some(src) => {
                q.app_sources.insert(app.clone(), src.clone());
            },
            None => {},
        }
    }
}

/// Puts the protected apps back after the config of an older commit was checked out:
/// each is registered again as it was before, listed again (with its link) by the
/// profiles that listed it before and still exist, and linked again on this device.
pub fn restore_protected(shared: &mut SharedAppConfig, local: &mut LocalAppConfig, pre_shared: &SharedAppConfig, pre_local: &LocalAppConfig, protected: &Vec<String>)
    ensures
        ({
            let chosen = among(texts(protected@));
            &&& forall|k: Seq<char>| #![trigger map_get(final(shared).apps@, k)] if chosen(k) && has_key(pre_shared.apps@, k) {
                map_get(final(shared).apps@, k) matches Some(b) && same_app(map_get(pre_shared.apps@, k)->0, b)
            } else {
                map_get(final(shared).apps@, k) == map_get(old(shared).apps@, k)
            }
            &&& profiles_restored(old(shared).profiles@, final(shared).profiles@, pre_shared.profiles@, chosen)
            &&& forall|k: Seq<char>| #[trigger] map_get(final(local).link_paths@, k) == if chosen(k) && has_key(pre_local.link_paths@, k) {
                map_get(pre_local.link_paths@, k)
            } else {
                map_get(old(local).link_paths@, k)
            }
        }),
        final(shared).ignored == old(shared).ignored,
        final(shared).remote == old(shared).remote,
        final(local).active_profile == old(local).active_profile,
        final(local).os_info == old(local).os_info,
{
    let ghost s0 = *shared;
    let ghost l0 = *local;
    let ghost pv = texts(protected@);
    let mut i: usize = 0;
    proof {
        assert forall|p: Seq<char>| match #[trigger] map_get(s0.profiles@, p) {
            None => map_get(shared.profiles@, p) is None,
            Some(q0) => map_get(shared.profiles@, p) matches Some(q) && restored_profile(q0, q, map_get(pre_shared.profiles@, p), among(pv.take(0))),
        } by {}
    }
    while i < protected.len()
        invariant
            i <= protected@.len(),
            pv == texts(protected@),
            shared.ignored == s0.ignored,
            shared.remote == s0.remote,
            local.active_profile == l0.active_profile,
            local.os_info == l0.os_info,
            forall|k: Seq<char>| #![trigger map_get(shared.apps@, k)] if pv.take(i as int).contains(k) && has_key(pre_shared.apps@, k) {
                map_get(shared.apps@, k) matches Some(b) && same_app(map_get(pre_shared.apps@, k)->0, b)
            } else {
                map_get(shared.apps@, k) == map_get(s0.apps@, k)
            },
            profiles_restored(s0.profiles@, shared.profiles@, pre_shared.profiles@, among(pv.take(i as int))),
            forall|k: Seq<char>| #[trigger] map_get(local.link_paths@, k) == if pv.take(i as int).contains(k) && has_key(pre_local.link_paths@, k) {
                map_get(pre_local.link_paths@, k)
            } else {
                map_get(l0.link_paths@, k)
            },
        decreases protected@.len() - i,
    {
        let app = &protected[i];
        let ghost x = app@;
        let ghost t0 = pv.take(i as int);
        let ghost t1 = pv.take(i + 1);
        proof {
            assert(pv[i as int] == x);
            assert forall|y: Seq<char>| #[trigger] t1.contains(y) == (t0.contains(y) || y == x) by {
                if t1.contains(y) {
                    let j = choose|j: int| 0 <= j < t1.len() && t1[j] == y;
                    if j < i {
                        assert(t0[j] == y);
                    }
                }
                if t0.contains(y) {
                    let j = choose|j: int| 0 <= j < t0.len() && t0[j] == y;
                    assert(t1[j] == y);
                }
                if y == x {
                    assert(t1[i as int] == y);
                }
            }
        }
        // the app's registration
        match pre_shared.apps.get(app.as_str()) {
            Some(a) => {
                shared.apps.insert(app.clone(), a.duplicate());
            },
            None => {},
        }
        // its link on this device
        match pre_local.link_paths.get(app.as_str()) {
            Some(path) => {
                local.link_paths.insert(app.clone(), path.clone());
            },
            None => {},
        }
        // its profiles
        let ghost mid = shared.profiles@;
        let ghost apps_snap = shared.apps;
        let ghost local_snap = *local;
        pre_shared.profiles.reveal_sorted();
        let mut j: usize = 0;
        while j < pre_shared.profiles.len()
            invariant
                j <= pre_shared.profiles@.len(),
                shared.apps == apps_snap,
                *local == local_snap,
                x == app@,
                crate::collections::keys_sorted(pre_shared.profiles@),
                forall|p: Seq<char>| #[trigger] has_key(shared.profiles@, p) == has_key(mid, p),
                forall|p: Seq<char>| match #[trigger] map_get(mid, p) {
                    None => map_get(shared.profiles@, p) is None,
                    Some(q0) => map_get(shared.profiles@, p) matches Some(q) && if keys_of(pre_shared.profiles@).take(j as int).contains(p) {
                        restored_profile(q0, q, map_get(pre_shared.profiles@, p), only(x))
                    } else {
                        q == q0
                    },
                },
                shared.ignored == s0.ignored,
                shared.remote == s0.remote,
            decreases pre_shared.profiles@.len() - j,
        {
            let pname = pre_shared.profiles.key_at(j);
            let pp = pre_shared.profiles.value_at(j);
            proof {
                crate::collections::lemma_map_get_at(pre_shared.profiles@, j as int);
                let kp = keys_of(pre_shared.profiles@);
                let u1 = kp.take(j + 1);
                let u0 = kp.take(j as int);
                assert forall|p: Seq<char>| #[trigger] u1.contains(p) == (u0.contains(p) || p == kp[j as int]) by {
                    if u1.contains(p) {
                        let m = choose|m: int| 0 <= m < u1.len() && u1[m] == p;
                        if m < j {
                            assert(u0[m] == p);
                        }
                    }
                    if u0.contains(p) {
                        let m = choose|m: int| 0 <= m < u0.len() && u0[m] == p;
                        assert(u1[m] == p);
                    }
                    if p == kp[j as int] {
                        assert(u1[j as int] == p);
                    }
                }
                assert(!u0.contains(kp[j as int])) by {
                    if u0.contains(kp[j as int]) {
                        let m = choose|m: int| 0 <= m < u0.len() && u0[m] == kp[j as int];
                        assert(crate::collections::text_lt(pre_shared.profiles@[m].0, pre_shared.profiles@[j as int].0));
                        crate::collections::lemma_text_lt_irreflexive(kp[j as int]);
                    }
                }
            }
            let ghost before = shared.profiles@;
            match shared.profiles.remove(pname.as_str()) {
                Some(q) => {
                    let ghost q_old = q;
                    let mut q = q;
                    restore_app_in_profile(&mut q, pp, app);
                    let ghost q_new = q;
                    shared.profiles.insert(pname.clone(), q);
                    proof {
                        assert(map_get(before, pname@) == Some(q_old));
                        assert(map_get(shared.profiles@, pname@) == Some(q_new));
                        assert(restored_profile(q_old, q_new, Some(*pp), only(x)));
                    }
                },
                None => {},
            }
            proof {
                let kp = keys_of(pre_shared.profiles@);
                assert(kp[j as int] == pname@);
                assert forall|p: Seq<char>| match #[trigger] map_get(mid, p) {
                    None => map_get(shared.profiles@, p) is None,
                    Some(q0) => map_get(shared.profiles@, p) matches Some(q) && if kp.take(j + 1).contains(p) {
                        restored_profile(q0, q, map_get(pre_shared.profiles@, p), only(x))
                    } else {
                        q == q0
                    },
                } by {
                    if p != pname@ {
                        assert(map_get(shared.profiles@, p) == map_get(before, p));
                        assert(kp.take(j + 1).contains(p) == kp.take(j as int).contains(p));
                    } else {
                        assert(map_get(pre_shared.profiles@, p) == Some(*pp));
                        assert(!kp.take(j as int).contains(p));
                        assert(kp.take(j + 1).contains(p));
                        if map_get(mid, p) is Some {
                            assert(map_get(before, p) == map_get(mid, p));
                        }
                    }
                }
            }
            j = j + 1;
        }
        proof {
            let kp = keys_of(pre_shared.profiles@);
            assert(kp.take(kp.len() as int) =~= kp);
            assert forall|p: Seq<char>| match #[trigger] map_get(s0.profiles@, p) {
                None => map_get(shared.profiles@, p) is None,
                Some(q0) => map_get(shared.profiles@, p) matches Some(q) && restored_profile(q0, q, map_get(pre_shared.profiles@, p), among(t1)),
            } by {
                if has_key(pre_shared.profiles@, p) {
                    let m = choose|m: int| 0 <= m < pre_shared.profiles@.len() && (#[trigger] pre_shared.profiles@[m]).0 == p;
                    assert(kp[m] == p);
                }
            }
            assert forall|p: Seq<char>| #[trigger] has_key(shared.profiles@, p) == has_key(s0.profiles@, p) by {
                assert(has_key(mid, p) == has_key(s0.profiles@, p));
            }
        }
        i = i + 1;
    }
    proof {
        assert(pv.take(pv.len() as int) =~= pv);
    }
}

/// How many bytes UTF-8 takes for `c`.
pub open spec fn utf8_len(c: char) -> nat {
    if (c as u32) < 0x80 {
        1
    } else if (c as u32) < 0x800 {
        2
    } else if (c as u32) < 0x10000 {
        3
    } else {
        4
    }
}

/// How many bytes UTF-8 takes for `s`.
pub open spec fn byte_len(s: Seq<char>) -> nat
    decreases s.len(),
{
    if s.len() == 0 {
        0
    } else {
        byte_len(s.drop_last()) + utf8_len(s.last())
    }
}

/// The first seven bytes of `hash` (all of it when shorter) end on a character boundary,
/// so the short form of the hash can be cut there.
pub open spec fn short_cut_ok(hash: Seq<char>) -> bool {
    exists|m: int| 0 <= m <= hash.len() && #[trigger] byte_len(hash.take(m)) == if byte_len(hash) < 7 { byte_len(hash) } else { 7 }
}

proof fn lemma_byte_len_monotone(s: Seq<char>, a: int, b: int)
    requires
        0 <= a <= b <= s.len(),
    ensures
        byte_len(s.take(a)) <= byte_len(s.take(b)),
        a < b ==> byte_len(s.take(a)) < byte_len(s.take(b)),
    decreases b - a,
{
    if a < b {
        lemma_byte_len_monotone(s, a, b - 1);
        assert(s.take(b).drop_last() =~= s.take(b - 1));
    }
}

/// The short form of a commit hash shown to the user: its first seven bytes (as
/// `&hash[..hash.len().min(7)]`).
pub fn short_hash(hash: &str) -> (r: String)
    requires
        short_cut_ok(hash@),
    ensures
        exists|m: int| 0 <= m <= hash@.len() && r@ == hash@.take(m) && byte_len(hash@.take(m)) == if byte_len(hash@) < 7 {
            byte_len(hash@)
        } else {
            7
        },
{
    let c = chars_of(hash);
    let ghost target: nat = if byte_len(hash@) < 7 { byte_len(hash@) } else { 7 };
    let ghost m = choose|m: int| 0 <= m <= hash@.len() && #[trigger] byte_len(hash@.take(m)) == target;
    let mut out: Vec<char> = Vec::new();
    let mut bytes: usize = 0;
    let mut i: usize = 0;
    proof {
        assert(hash@.take(0) =~= Seq::<char>::empty());
        assert(hash@.take(hash@.len() as int) =~= hash@);
    }
    while i < c.len() && bytes < 7
        invariant
            c@ == hash@,
            i <= c@.len(),
            out@ == hash@.take(i as int),
            bytes == byte_len(hash@.take(i as int)),
            bytes <= 7 || i <= m,
            i <= m,
            0 <= m <= hash@.len(),
            byte_len(hash@.take(m)) == target,
            target == if byte_len(hash@) < 7 { byte_len(hash@) } else { 7 },
        decreases c@.len() - i,
    {
        let ch = c[i];
        let n: usize = if (ch as u32) < 0x80 {
            1
        } else if (ch as u32) < 0x800 {
            2
        } else if (ch as u32) < 0x10000 {
            3
        } else {
            4
        };
        proof {
            assert(hash@.take(i + 1).drop_last() =~= hash@.take(i as int));
            assert(hash@.take(i + 1).last() == ch);
            if i == m {
                // at the cut the byte count is already the target, which is below 7 only
                // when the whole hash is shorter: then there is nothing left
                assert(hash@.take(hash@.len() as int) =~= hash@);
                lemma_byte_len_monotone(hash@, i as int, hash@.len() as int);
                assert(false);
            }
            lemma_byte_len_monotone(hash@, i + 1, m);
        }
        out.push(ch);
        bytes = bytes + n;
        i = i + 1;
    }
    proof {
        assert(i == m) by {
            if i < m {
                lemma_byte_len_monotone(hash@, i as int, m);
            }
        }
    }
    string_from_chars(out.as_slice())
}

/// The message of the commit that records a rollback.
pub open spec fn rollback_message_text(short: Seq<char>, preserved: nat) -> Seq<char> {
    "rollback to "@ + short + " + preserve "@ + crate::text::decimal(preserved) + " app(s)"@
}

/// The message of the commit that records a rollback to the commit with short hash
/// `short`, which kept `preserved` apps the target lacked.
pub fn rollback_message(short: &str, preserved: usize) -> (r: String)
    ensures
        r@ == rollback_message_text(short@, preserved as nat),
{
    let mut r = concat("rollback to ", short);
    append_str(&mut r, " + preserve ");
    append_str(&mut r, decimal_of(preserved as u64).as_str());
    append_str(&mut r, " app(s)");
    r
}

// ------------------------------------------------------------------
// Merging a config with itself
// ------------------------------------------------------------------

proof fn lemma_missing_none(xs: Seq<Seq<char>>, ys: Seq<Seq<char>>)
    requires
        forall|i: int| 0 <= i < xs.len() ==> ys.contains(#[trigger] xs[i]),
    ensures
        missing_from(xs, ys) == Seq::<Seq<char>>::empty(),
    decreases xs.len(),
{
    if xs.len() > 0 {
        assert forall|i: int| 0 <= i < xs.drop_last().len() implies ys.contains(#[trigger] xs.drop_last()[i]) by {
            assert(xs.drop_last()[i] == xs[i]);
        }
        lemma_missing_none(xs.drop_last(), ys);
        assert(ys.contains(xs[xs.len() - 1]));
    }
}

proof fn lemma_kept_all(apps: Seq<Seq<char>>, la: Seq<(Seq<char>, Application)>)
    ensures
        kept_apps(apps, la, la) == apps,
    decreases apps.len(),
{
    if apps.len() > 0 {
        lemma_kept_all(apps.drop_last(), la);
        assert(apps.drop_last().push(apps.last()) =~= apps);
    }
}

proof fn lemma_app_notes_self(la: Seq<(Seq<char>, Application)>, ra: Seq<(Seq<char>, Application)>, pref: ConflictPreference)
    requires
        crate::collections::keys_sorted(la),
        ra.len() <= la.len(),
        forall|i: int| 0 <= i < ra.len() ==> #[trigger] ra[i] == la[i],
    ensures
        app_notes(la, ra, pref) == Seq::<NoteView>::empty(),
    decreases ra.len(),
{
    if ra.len() > 0 {
        let n = ra.len() - 1;
        assert forall|i: int| 0 <= i < ra.drop_last().len() implies #[trigger] ra.drop_last()[i] == la[i] by {
            assert(ra.drop_last()[i] == ra[i]);
        }
        lemma_app_notes_self(la, ra.drop_last(), pref);
        assert(ra.last() == la[n]);
        crate::collections::lemma_map_get_at(la, n);
        assert(app_notes_for(ra.last().0, map_get(la, ra.last().0), ra.last().1, pref) =~= Seq::<NoteView>::empty());
    }
}

proof fn lemma_profile_notes_self(
    lp: Seq<(Seq<char>, Profile)>,
    rp: Seq<(Seq<char>, Profile)>,
    la: Seq<(Seq<char>, Application)>,
    pref: ConflictPreference,
)
    requires
        crate::collections::keys_sorted(lp),
        rp.len() <= lp.len(),
        forall|i: int| 0 <= i < rp.len() ==> #[trigger] rp[i] == lp[i],
    ensures
        profile_notes(lp, rp, la, la, pref) == Seq::<NoteView>::empty(),
    decreases rp.len(),
{
    if rp.len() > 0 {
        let n = rp.len() - 1;
        assert forall|i: int| 0 <= i < rp.drop_last().len() implies #[trigger] rp.drop_last()[i] == lp[i] by {
            assert(rp.drop_last()[i] == rp[i]);
        }
        lemma_profile_notes_self(lp, rp.drop_last(), la, pref);
        assert(rp.last() == lp[n]);
        crate::collections::lemma_map_get_at(lp, n);
        let p = lp[n].1;
        lemma_kept_all(p.apps@, la);
        assert forall|i: int| 0 <= i < p.apps@.len() implies p.apps@.contains(#[trigger] p.apps@[i]) by {}
        lemma_missing_none(p.apps@, p.apps@);
        assert(profile_notes_for(rp.last().0, map_get(lp, rp.last().0), rp.last().1, la, la, pref) =~= Seq::<NoteView>::empty());
    }
}

/// Syncing a config with an identical remote settles nothing: the merge reports no
/// difference, whichever side is preferred.
pub proof fn lemma_merge_with_self(c: SharedAppConfig, pref: ConflictPreference)
    requires
        crate::collections::keys_sorted(c.apps@),
        crate::collections::keys_sorted(c.profiles@),
    ensures
        merge_notes(c, c, pref) == Seq::<NoteView>::empty(),
{
    assert forall|i: int| 0 <= i < c.ignored@.len() implies c.ignored@.contains(#[trigger] c.ignored@[i]) by {}
    lemma_missing_none(c.ignored@, c.ignored@);
    lemma_app_notes_self(c.apps@, c.apps@, pref);
    let ka = keys_of(c.apps@);
    assert forall|i: int| 0 <= i < ka.len() implies ka.contains(#[trigger] ka[i]) by {}
    lemma_missing_none(ka, ka);
    lemma_profile_notes_self(c.profiles@, c.profiles@, c.apps@, pref);
    let kp = keys_of(c.profiles@);
    assert forall|i: int| 0 <= i < kp.len() implies kp.contains(#[trigger] kp[i]) by {}
    lemma_missing_none(kp, kp);
    assert(merge_notes(c, c, pref) =~= Seq::<NoteView>::empty());
}

/// Merging a config with an identical remote, keeping local, changes no app and no
/// profile's apps or links.
pub proof fn lemma_merge_with_self_keeps(c: SharedAppConfig, merged: SharedAppConfig)
    requires
        merge_ok(c, c, ConflictPreference::Local, merged),
    ensures
        forall|k: Seq<char>| #[trigger] map_get(merged.apps@, k) == map_get(c.apps@, k),
        forall|x: Seq<char>| #[trigger] merged.ignored@.contains(x) == c.ignored@.contains(x),
        forall|k: Seq<char>| #[trigger] map_get(c.profiles@, k) matches Some(p) ==> (map_get(merged.profiles@, k) matches Some(q)
            && (forall|x: Seq<char>| #[trigger] q.apps@.contains(x) == p.apps@.contains(x))
            && (forall|a: Seq<char>| #[trigger] map_get(q.app_sources@, a) == map_get(p.app_sources@, a))),
        forall|k: Seq<char>| #[trigger] map_get(c.profiles@, k) is None ==> map_get(merged.profiles@, k) is None,
{
    assert forall|k: Seq<char>| #[trigger] map_get(merged.apps@, k) == map_get(c.apps@, k) by {
        if !has_key(c.apps@, k) {
            assert(map_get(c.apps@, k) is None);
        }
    }
    assert forall|k: Seq<char>| #[trigger] map_get(c.profiles@, k) is Some implies (map_get(merged.profiles@, k) is Some
        && (forall|x: Seq<char>| #[trigger] map_get(merged.profiles@, k)->0.apps@.contains(x) == map_get(c.profiles@, k)->0.apps@.contains(x))
        && (forall|a: Seq<char>| #[trigger] map_get(map_get(merged.profiles@, k)->0.app_sources@, a) == map_get(map_get(c.profiles@, k)->0.app_sources@, a))) by {
        let p = map_get(c.profiles@, k)->0;
        let q = map_get(merged.profiles@, k)->0;
        assert(merged_profile(p, p, q));
        assert forall|a: Seq<char>| #[trigger] map_get(q.app_sources@, a) == map_get(p.app_sources@, a) by {
            if !has_key(p.app_sources@, a) {
                assert(map_get(p.app_sources@, a) is None);
            }
        }
    }
}

/// The status line after a sync from the main view: what the sync came to, then, when
/// apps were linked afterwards, how many.
pub open spec fn sync_status_text(outcome: Result<SyncResult, String>, linked: nat) -> Seq<char> {
    let base = match outcome {
        Ok(SyncResult::Clean) => "Sync complete. Pushed to origin."@,
        Ok(SyncResult::ConfigConflict { resolved }) => "Sync complete. "@ + decimal(resolved@.len())
            + " config conflict(s) resolved. Pushed to origin."@,
        Ok(SyncResult::FileConflict { file_conflicts, .. }) => "Sync conflict: "@ + (if file_conflicts@.len() == 0 {
            "file conflicts with remote"@
        } else {
            joined(texts(file_conflicts@), ", "@)
        }) + ". Run 'cd ~/.roost && git status', fix conflicts, then sync again."@,
        Err(e) => "Sync error: "@ + e@,
    };
    if linked > 0 {
        base + " "@ + decimal(linked) + " app(s) linked after sync."@
    } else {
        base
    }
}

/// The strings joined with `sep` between them.
pub fn join_texts(parts: &[String], sep: &str) -> (r: String)
    ensures
        r@ == joined(texts(parts@), sep@),
{
    if parts.len() == 0 {
        return String::new();
    }
    let mut out = parts[0].clone();
    let mut i: usize = 1;
    proof {
        assert(texts(parts@.take(1)) =~= seq![parts@[0]@]);
    }
    while i < parts.len()
        invariant
            1 <= i <= parts@.len(),
            out@ == joined(texts(parts@.take(i as int)), sep@),
        decreases parts@.len() - i,
    {
        append_str(&mut out, sep);
        append_str(&mut out, parts[i].as_str());
        proof {
            let t = texts(parts@.take(i + 1));
            assert(t.drop_last() =~= texts(parts@.take(i as int)));
            assert(t.last() == parts@[i as int]@);
        }
        i = i + 1;
    }
    proof {
        assert(parts@.take(parts@.len() as int) =~= parts@);
    }
    out
}

/// The status line after a sync (see [`sync_status_text`]).
pub fn sync_status(outcome: &Result<SyncResult, String>, linked: usize) -> (r: String)
    ensures
        r@ == sync_status_text(*outcome, linked as nat),
{
    let mut s = match outcome {
        Ok(SyncResult::Clean) => "Sync complete. Pushed to origin.".to_string(),
        Ok(SyncResult::ConfigConflict { resolved }) => {
            let mut m = "Sync complete. ".to_string();
            let n = decimal_of(resolved.len() as u64);
            append_str(&mut m, n.as_str());
            append_str(&mut m, " config conflict(s) resolved. Pushed to origin.");
            m
        },
        Ok(SyncResult::FileConflict { file_conflicts, .. }) => {
            let mut m = "Sync conflict: ".to_string();
            if file_conflicts.len() == 0 {
                append_str(&mut m, "file conflicts with remote");
            } else {
                let list = join_texts(file_conflicts.as_slice(), ", ");
                append_str(&mut m, list.as_str());
            }
            append_str(&mut m, ". Run 'cd ~/.roost && git status', fix conflicts, then sync again.");
            m
        },
        Err(e) => concat("Sync error: ", e.as_str()),
    };
    if linked > 0 {
        append_str(&mut s, " ");
        let n = decimal_of(linked as u64);
        append_str(&mut s, n.as_str());
        append_str(&mut s, " app(s) linked after sync.");
    }
    s
}

} // verus!
