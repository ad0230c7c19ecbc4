//! Content of the `.gitignore` at the root of the roost directory: a managed block built
//! from the global and per-app ignore patterns, followed by the user's own rules.
use vstd::prelude::*;

use crate::app::Application;
use crate::collections::{StrMap, StrSet};
use crate::text::{chars_eq, chars_of, concat_chars, copy_chars, lines_of, split_lines, string_from_chars, strip_cr, trim, trim_chars};

verus! {

pub const HEADER: &'static str = "# === Roost-managed begin ===";

pub const FOOTER: &'static str = "# === Roost-managed end ===";

/// The lines kept outside the managed block: lines between a header line and the next
/// footer line are dropped, and so are the header and footer lines themselves (compared
/// after trimming white space).
pub open spec fn outside_lines(lines: Seq<Seq<char>>, in_managed: bool) -> Seq<Seq<char>>
    decreases lines.len(),
{
    if lines.len() == 0 {
        Seq::empty()
    } else {
        let l = lines[0];
        let rest = lines.drop_first();
        if trim(l) == HEADER@ {
            outside_lines(rest, true)
        } else if trim(l) == FOOTER@ {
            outside_lines(rest, false)
        } else if in_managed {
            outside_lines(rest, true)
        } else {
            seq![l] + outside_lines(rest, false)
        }
    }
}

/// A line with nothing but white space.
pub open spec fn is_blank(l: Seq<char>) -> bool {
    trim(l).len() == 0
}

/// `lines` without its leading blank lines.
pub open spec fn drop_leading_blank(lines: Seq<Seq<char>>) -> Seq<Seq<char>>
    decreases lines.len(),
{
    if lines.len() > 0 && is_blank(lines[0]) {
        drop_leading_blank(lines.drop_first())
    } else {
        lines
    }
}

/// `lines` without its trailing blank lines.
pub open spec fn drop_trailing_blank(lines: Seq<Seq<char>>) -> Seq<Seq<char>>
    decreases lines.len(),
{
    if lines.len() > 0 && is_blank(lines.last()) {
        drop_trailing_blank(lines.drop_last())
    } else {
        lines
    }
}

/// The lines joined with `'\n'` between them.
pub open spec fn join_lines(lines: Seq<Seq<char>>) -> Seq<char>
    decreases lines.len(),
{
    if lines.len() == 0 {
        Seq::empty()
    } else if lines.len() == 1 {
        lines[0]
    } else {
        join_lines(lines.drop_last()) + seq!['\n'] + lines.last()
    }
}

/// The user's rules in an existing `.gitignore`: the lines outside the managed block,
/// without leading and trailing blank lines, joined with `'\n'`.
pub open spec fn user_rules(content: Seq<char>) -> Seq<char> {
    join_lines(drop_trailing_blank(drop_leading_blank(outside_lines(split_lines(content), false))))
}

/// Joins lines with `'\n'`.
pub fn join_lines_exec(lines: &[Vec<char>]) -> (r: Vec<char>)
    ensures
        r@ == join_lines(lines@.map_values(|l: Vec<char>| l@)),
{
    let ghost ls = lines@.map_values(|l: Vec<char>| l@);
    let mut out: Vec<char> = Vec::new();
    let mut i: usize = 0;
    while i < lines.len()
        invariant
            i <= lines@.len(),
            ls == lines@.map_values(|l: Vec<char>| l@),
            out@ == join_lines(ls.take(i as int)),
        decreases lines@.len() - i,
    {
        proof {
            assert(ls.take(i + 1).drop_last() =~= ls.take(i as int));
            assert(ls.take(i + 1).last() == lines@[i as int]@);
        }
        if i == 0 {
            out = copy_chars(lines[0].as_slice());
            assert(ls.take(1) =~= seq![lines@[0]@]);
        } else {
            out.push('\n');
            out = concat_chars(out.as_slice(), lines[i].as_slice());
        }
        i = i + 1;
    }
    assert(ls.take(i as int) =~= ls);
    out
}

/// The user's rules found in an existing `.gitignore` (see [`user_rules`]).
pub fn extract_user_rules(content: &str) -> (r: String)
    ensures
        r@ == user_rules(content@),
{
    let chars = chars_of(content);
    let lines = lines_of(chars.as_slice());
    let ghost ls = split_lines(content@);
    assert(lines@.map_values(|l: Vec<char>| l@) =~= ls);
    let header = chars_of(HEADER);
    let footer = chars_of(FOOTER);
    let mut in_managed = false;
    let mut user: Vec<Vec<char>> = Vec::new();
    let mut i: usize = 0;
    assert(ls.skip(0) =~= ls);
    assert(user@.map_values(|l: Vec<char>| l@) + outside_lines(ls, false) =~= outside_lines(ls, false));
    while i < lines.len()
        invariant
            i <= lines@.len() == ls.len(),
            forall|k: int| 0 <= k < lines@.len() ==> #[trigger] lines@[k]@ == ls[k],
            header@ == HEADER@,
            footer@ == FOOTER@,
            outside_lines(ls, false) == user@.map_values(|l: Vec<char>| l@) + outside_lines(
                ls.skip(i as int),
                in_managed,
            ),
        decreases lines@.len() - i,
    {
        let ghost rest = ls.skip(i as int);
        assert(rest[0] == ls[i as int]);
        assert(rest.drop_first() =~= ls.skip(i + 1));
        let t = trim_chars(lines[i].as_slice());
        if chars_eq(t.as_slice(), header.as_slice()) {
            in_managed = true;
        } else if chars_eq(t.as_slice(), footer.as_slice()) {
            in_managed = false;
        } else if !in_managed {
            let ghost before = user@.map_values(|l: Vec<char>| l@);
            user.push(copy_chars(lines[i].as_slice()));
            assert(user@.map_values(|l: Vec<char>| l@) =~= before.push(ls[i as int]));
            assert(before.push(ls[i as int]) + outside_lines(ls.skip(i + 1), false) =~= before + (
            seq![ls[i as int]] + outside_lines(ls.skip(i + 1), false)));
        }
        i = i + 1;
    }
    assert(ls.skip(i as int) =~= Seq::<Seq<char>>::empty());
    let ghost us = user@.map_values(|l: Vec<char>| l@);
    assert(us + Seq::<Seq<char>>::empty() =~= us);
    // drop leading blank lines
    let mut a: usize = 0;
    assert(us.skip(0) =~= us);
    while a < user.len() && trim_chars(user[a].as_slice()).len() == 0
        invariant
            a <= user@.len(),
            us == user@.map_values(|l: Vec<char>| l@),
            drop_leading_blank(us) == drop_leading_blank(us.skip(a as int)),
        decreases user@.len() - a,
    {
        assert(us.skip(a as int)[0] == us[a as int]);
        assert(us.skip(a as int).drop_first() =~= us.skip(a + 1));
        a = a + 1;
    }
    let ghost lead = us.skip(a as int);
    assert(a < user@.len() ==> lead[0] == us[a as int]);
    assert(drop_leading_blank(us) == lead);
    // drop trailing blank lines
    let mut b: usize = user.len();
    assert(lead.take(b - a) =~= lead);
    while b > a && trim_chars(user[b - 1].as_slice()).len() == 0
        invariant
            a <= b <= user@.len(),
            us == user@.map_values(|l: Vec<char>| l@),
            lead == us.skip(a as int),
            drop_trailing_blank(lead) == drop_trailing_blank(lead.take(b - a)),
        decreases b,
    {
        assert(lead.take(b - a).last() == us[b - 1]);
        assert(lead.take(b - a).drop_last() =~= lead.take(b - 1 - a));
        b = b - 1;
    }
    assert(b > a ==> lead.take(b - a).last() == us[b - 1]);
    let mut kept: Vec<Vec<char>> = Vec::new();
    let mut j = a;
    while j < b
        invariant
            a <= j <= b <= user@.len(),
            us == user@.map_values(|l: Vec<char>| l@),
            kept@.map_values(|l: Vec<char>| l@) == us.subrange(a as int, j as int),
        decreases b - j,
    {
        let ghost before = kept@.map_values(|l: Vec<char>| l@);
        kept.push(copy_chars(user[j].as_slice()));
        assert(kept@.map_values(|l: Vec<char>| l@) =~= before.push(us[j as int]));
        assert(us.subrange(a as int, j + 1) =~= us.subrange(a as int, j as int).push(us[j as int]));
        j = j + 1;
    }
    assert(us.subrange(a as int, b as int) =~= lead.take(b - a));
    let joined = join_lines_exec(kept.as_slice());
    string_from_chars(joined.as_slice())
}

/// How a global pattern is written in the managed block: `.git` becomes `**/.git/` so
/// that it matches `.git` folders inside app directories but not the roost repository's own.
pub open spec fn translated(p: Seq<char>) -> Seq<char> {
    if p == ".git"@ {
        "**/.git/"@
    } else {
        p
    }
}

/// Translates a global ignore pattern (see [`translated`]).
pub fn translate_pattern(p: &str) -> (r: String)
    ensures
        r@ == translated(p@),
        p@ != ".git"@ ==> r@ == p@,
        p@ == ".git"@ ==> r@ == "**/.git/"@,
{
    let c = chars_of(p);
    let git = chars_of(".git");
    if chars_eq(c.as_slice(), git.as_slice()) {
        string_from_chars(chars_of("**/.git/").as_slice())
    } else {
        string_from_chars(c.as_slice())
    }
}

/// Lines for one app's ignore patterns: for every profile the app is on, and every
/// pattern, `profile/app/pattern`.
pub open spec fn app_pattern_lines(name: Seq<char>, profiles: Seq<Seq<char>>, patterns: Seq<Seq<char>>) -> Seq<Seq<char>>
    decreases profiles.len(),
{
    if profiles.len() == 0 {
        Seq::empty()
    } else {
        app_pattern_lines(name, profiles.drop_last(), patterns) + patterns.map_values(
            |p: Seq<char>| profiles.last() + seq!['/'] + name + seq!['/'] + p,
        )
    }
}

/// The per-app lines: a `# app: name` line then the app's pattern lines, for each
/// directory app with patterns, apps in name order.
pub open spec fn per_app_lines(apps: Seq<(Seq<char>, Application)>) -> Seq<Seq<char>>
    decreases apps.len(),
{
    if apps.len() == 0 {
        Seq::empty()
    } else {
        let prev = per_app_lines(apps.drop_last());
        let (name, app) = apps.last();
        if app.is_dir && app.ignore@.len() > 0 {
            prev + seq!["# app: "@ + name] + app_pattern_lines(
                name,
                app.on_profiles@,
                app.ignore@.map_values(|s: String| s@),
            )
        } else {
            prev
        }
    }
}

/// The lines of the managed block.
pub open spec fn managed_lines(globals: Seq<Seq<char>>, apps: Seq<(Seq<char>, Application)>) -> Seq<Seq<char>> {
    let base = seq![HEADER@, "local.toml"@, ".backups/"@, "*.local"@];
    let with_globals = if globals.len() > 0 {
        base + seq!["# global"@] + globals.map_values(|p: Seq<char>| translated(p))
    } else {
        base
    };
    let with_apps = if per_app_lines(apps).len() > 0 {
        with_globals + seq!["# per-app"@] + per_app_lines(apps)
    } else {
        with_globals
    };
    with_apps + seq![FOOTER@]
}

/// The whole `.gitignore`: the managed block, then the user's rules (if any are not blank)
/// after an empty line, with a final newline.
pub open spec fn gitignore_text(managed: Seq<Seq<char>>, user: Seq<char>) -> Seq<char> {
    if trim(user).len() == 0 {
        join_lines(managed) + seq!['\n']
    } else {
        join_lines(managed) + seq!['\n', '\n'] + user + seq!['\n']
    }
}

/// The new `.gitignore` for the given global patterns and apps, keeping the user's
/// rules from `existing` (the current file, if there is one).
pub open spec fn gitignore_spec(existing: Option<Seq<char>>, globals: Seq<Seq<char>>, apps: Seq<(Seq<char>, Application)>) -> Seq<char> {
    gitignore_text(
        managed_lines(globals, apps),
        match existing {
            Some(c) => user_rules(c),
            None => Seq::empty(),
        },
    )
}

fn push_line(lines: &mut Vec<Vec<char>>, s: &str)
    ensures
        final(lines)@.map_values(|l: Vec<char>| l@) == old(lines)@.map_values(|l: Vec<char>| l@).push(s@),
{
    let ghost before = lines@.map_values(|l: Vec<char>| l@);
    lines.push(chars_of(s));
    assert(lines@.map_values(|l: Vec<char>| l@) =~= before.push(s@));
}

fn push_chars(lines: &mut Vec<Vec<char>>, c: Vec<char>)
    ensures
        final(lines)@.map_values(|l: Vec<char>| l@) == old(lines)@.map_values(|l: Vec<char>| l@).push(c@),
{
    let ghost before = lines@.map_values(|l: Vec<char>| l@);
    lines.push(c);
    assert(lines@.map_values(|l: Vec<char>| l@) =~= before.push(c@));
}

/// Builds the `.gitignore` content (see [`gitignore_spec`]).
pub fn gitignore_content(existing: Option<&str>, global_patterns: &StrSet, apps: &StrMap<Application>) -> (r: String)
    ensures
        r@ == gitignore_spec(
            match existing {
                Some(c) => Some(c@),
                None => None,
            },
            global_patterns@,
            apps@,
        ),
{
    let user = match existing {
        Some(c) => extract_user_rules(c),
        None => String::new(),
    };
    let mut lines: Vec<Vec<char>> = Vec::new();
    push_line(&mut lines, HEADER);
    push_line(&mut lines, "local.toml");
    push_line(&mut lines, ".backups/");
    push_line(&mut lines, "*.local");
    let ghost base = seq![HEADER@, "local.toml"@, ".backups/"@, "*.local"@];
    assert(lines@.map_values(|l: Vec<char>| l@) =~= base);
    let ghost globals = global_patterns@;
    if global_patterns.len() > 0 {
        push_line(&mut lines, "# global");
        let mut i: usize = 0;
        while i < global_patterns.len()
            invariant
                i <= globals.len(),
                globals == global_patterns@,
                lines@.map_values(|l: Vec<char>| l@) == base + seq!["# global"@] + globals.take(
                    i as int,
                ).map_values(|p: Seq<char>| translated(p)),
            decreases globals.len() - i,
        {
            let t = translate_pattern(global_patterns.at(i).as_str());
            push_chars(&mut lines, chars_of(t.as_str()));
            assert(globals.take(i + 1).map_values(|p: Seq<char>| translated(p)) =~= globals.take(
                i as int,
            ).map_values(|p: Seq<char>| translated(p)).push(translated(globals[i as int])));
            i = i + 1;
        }
        assert(globals.take(i as int) =~= globals);
    }
    let ghost with_globals = lines@.map_values(|l: Vec<char>| l@);
    assert(with_globals == (if globals.len() > 0 {
        base + seq!["# global"@] + globals.map_values(|p: Seq<char>| translated(p))
    } else {
        base
    }));
    // per-app lines
    let mut app_lines: Vec<Vec<char>> = Vec::new();
    let ghost aps = apps@;
    let mut i: usize = 0;
    while i < apps.len()
        invariant
            i <= aps.len(),
            aps == apps@,
            app_lines@.map_values(|l: Vec<char>| l@) == per_app_lines(aps.take(i as int)),
        decreases aps.len() - i,
    {
        let name = apps.key_at(i);
        let app = apps.value_at(i);
        proof {
            assert(aps.take(i + 1).drop_last() =~= aps.take(i as int));
            assert(aps.take(i + 1).last() == aps[i as int]);
        }
        if app.is_dir && app.ignore.len() > 0 {
            let label = concat_chars(chars_of("# app: ").as_slice(), chars_of(name.as_str()).as_slice());
            push_chars(&mut app_lines, label);
            let ghost pats = app.ignore@.map_values(|s: String| s@);
            let ghost profs = app.on_profiles@;
            let ghost start = app_lines@.map_values(|l: Vec<char>| l@);
            let mut j: usize = 0;
            while j < app.on_profiles.len()
                invariant
                    j <= profs.len(),
                    profs == app.on_profiles@,
                    pats == app.ignore@.map_values(|s: String| s@),
                    app_lines@.map_values(|l: Vec<char>| l@) == start + app_pattern_lines(
                        name@,
                        profs.take(j as int),
                        pats,
                    ),
                decreases profs.len() - j,
            {
                let prof = app.on_profiles.at(j);
                let ghost before = app_lines@.map_values(|l: Vec<char>| l@);
                let mut k: usize = 0;
                while k < app.ignore.len()
                    invariant
                        k <= pats.len(),
                        pats == app.ignore@.map_values(|s: String| s@),
                        app_lines@.map_values(|l: Vec<char>| l@) == before + pats.take(
                            k as int,
                        ).map_values(|p: Seq<char>| prof@ + seq!['/'] + name@ + seq!['/'] + p),
                    decreases pats.len() - k,
                {
                    let mut line = chars_of(prof.as_str());
                    line.push('/');
                    let line = concat_chars(line.as_slice(), chars_of(name.as_str()).as_slice());
                    let mut line = line;
                    line.push('/');
                    let line = concat_chars(line.as_slice(), chars_of(app.ignore[k].as_str()).as_slice());
                    assert(line@ =~= prof@ + seq!['/'] + name@ + seq!['/'] + pats[k as int]);
                    push_chars(&mut app_lines, line);
                    assert(pats.take(k + 1).map_values(
                        |p: Seq<char>| prof@ + seq!['/'] + name@ + seq!['/'] + p,
                    ) =~= pats.take(k as int).map_values(
                        |p: Seq<char>| prof@ + seq!['/'] + name@ + seq!['/'] + p,
                    ).push(prof@ + seq!['/'] + name@ + seq!['/'] + pats[k as int]));
                    k = k + 1;
                }
                proof {
                    assert(pats.take(k as int) =~= pats);
                    assert(profs.take(j + 1).drop_last() =~= profs.take(j as int));
                    assert(profs.take(j + 1).last() == prof@);
                    assert(start + app_pattern_lines(name@, profs.take(j + 1), pats) =~= start
                        + app_pattern_lines(name@, profs.take(j as int), pats) + pats.map_values(
                        |p: Seq<char>| prof@ + seq!['/'] + name@ + seq!['/'] + p,
                    ));
                }
                j = j + 1;
            }
            proof {
                assert(profs.take(j as int) =~= profs);
                assert(app.ignore@.len() > 0);
            }
        }
        i = i + 1;
    }
    assert(aps.take(i as int) =~= aps);
    if app_lines.len() > 0 {
        push_line(&mut lines, "# per-app");
        let mut k: usize = 0;
        let ghost start = lines@.map_values(|l: Vec<char>| l@);
        let ghost al = app_lines@.map_values(|l: Vec<char>| l@);
        while k < app_lines.len()
            invariant
                k <= al.len(),
                al == app_lines@.map_values(|l: Vec<char>| l@),
                lines@.map_values(|l: Vec<char>| l@) == start + al.take(k as int),
            decreases al.len() - k,
        {
            push_chars(&mut lines, copy_chars(app_lines[k].as_slice()));
            assert(al.take(k + 1) =~= al.take(k as int).push(al[k as int]));
            k = k + 1;
        }
        assert(al.take(k as int) =~= al);
    }
    let ghost with_apps = lines@.map_values(|l: Vec<char>| l@);
    assert(with_apps == (if per_app_lines(aps).len() > 0 {
        with_globals + seq!["# per-app"@] + per_app_lines(aps)
    } else {
        with_globals
    }));
    push_line(&mut lines, FOOTER);
    assert(lines@.map_values(|l: Vec<char>| l@) == managed_lines(globals, aps));
    let joined = join_lines_exec(lines.as_slice());
    let ghost u_spec = match existing {
        Some(c) => user_rules(c@),
        None => Seq::<char>::empty(),
    };
    assert(user@ == u_spec);
    let u = chars_of(user.as_str());
    let ut = trim_chars(u.as_slice());
    let ghost jm = joined@;
    let mut out = joined;
    if ut.len() == 0 {
        out.push('\n');
        assert(out@ =~= jm + seq!['\n']);
    } else {
        out.push('\n');
        out.push('\n');
        out = concat_chars(out.as_slice(), u.as_slice());
        out.push('\n');
        assert(out@ =~= jm + seq!['\n', '\n'] + u@ + seq!['\n']);
    }
    string_from_chars(out.as_slice())
}

// ------------------------------------------------------------------
// The user's rules survive a regeneration
// ------------------------------------------------------------------

/// A line that reads back as itself: no line break in it and no carriage return at its end.
pub open spec fn plain_line(l: Seq<char>) -> bool {
    !l.contains('\n') && !(l.len() > 0 && l.last() == '\r')
}

/// A line that marks the managed block.
pub open spec fn is_marker(l: Seq<char>) -> bool {
    trim(l) == HEADER@ || trim(l) == FOOTER@
}

/// Lines that read as one managed block: a header line, lines that are no markers, and a
/// footer line.
pub open spec fn block_lines(m: Seq<Seq<char>>) -> bool {
    &&& m.len() >= 2
    &&& trim(m[0]) == HEADER@
    &&& trim(m.last()) == FOOTER@
    &&& forall|i: int| 0 < i < m.len() - 1 ==> !is_marker(#[trigger] m[i])
}

/// The managed block for `globals` and `apps` as the next regeneration reads it back from
/// the file: its text cut into lines (a pattern holding a line break gives several).
pub open spec fn managed_read_back(globals: Seq<Seq<char>>, apps: Seq<(Seq<char>, Application)>) -> Seq<Seq<char>> {
    split_lines(join_lines(managed_lines(globals, apps)) + seq!['\n'])
}

/// No rule kept from `content` (see [`kept_rules`]) still ends with a carriage return once
/// read as a line.
pub open spec fn rules_without_cr(content: Seq<char>) -> bool {
    forall|i: int| 0 <= i < kept_rules(content).len() ==> !(#[trigger] kept_rules(content)[i].len() > 0
        && kept_rules(content)[i].last() == '\r')
}

proof fn lemma_join_front(ls: Seq<Seq<char>>)
    requires
        ls.len() >= 2,
    ensures
        join_lines(ls) == ls[0] + seq!['\n'] + join_lines(ls.drop_first()),
    decreases ls.len(),
{
    if ls.len() == 2 {
        assert(ls.drop_last() =~= seq![ls[0]]);
        assert(ls.drop_first() =~= seq![ls[1]]);
        assert(join_lines(ls.drop_last()) == ls[0]);
        assert(join_lines(ls.drop_first()) == ls[1]);
    } else {
        lemma_join_front(ls.drop_last());
        assert(ls.drop_last().drop_first() =~= ls.drop_first().drop_last());
        assert(ls.drop_first().last() == ls.last());
        let a = ls[0];
        let c = join_lines(ls.drop_first().drop_last());
        assert(join_lines(ls.drop_first()) == c + seq!['\n'] + ls.last());
        assert(join_lines(ls) == (a + seq!['\n'] + c) + seq!['\n'] + ls.last());
        assert((a + seq!['\n'] + c) + seq!['\n'] + ls.last() =~= a + seq!['\n'] + (c + seq!['\n'] + ls.last()));
    }
}

proof fn lemma_join_concat(a: Seq<Seq<char>>, b: Seq<Seq<char>>)
    requires
        a.len() >= 1,
        b.len() >= 1,
    ensures
        join_lines(a + b) == join_lines(a) + seq!['\n'] + join_lines(b),
    decreases b.len(),
{
    if b.len() == 1 {
        assert((a + b).drop_last() =~= a);
        assert((a + b).last() == b[0]);
    } else {
        lemma_join_concat(a, b.drop_last());
        assert((a + b).drop_last() =~= a + b.drop_last());
        assert((a + b).last() == b.last());
    }
}

proof fn lemma_split_join(ls: Seq<Seq<char>>)
    requires
        ls.len() >= 1,
        forall|i: int| 0 <= i < ls.len() ==> plain_line(#[trigger] ls[i]),
    ensures
        split_lines(join_lines(ls) + seq!['\n']) == ls,
    decreases ls.len(),
{
    assert(plain_line(ls[0]));
    assert(strip_cr(ls[0]) == ls[0]);
    if ls.len() == 1 {
        crate::text::lemma_split_lines_cons(ls[0], Seq::empty());
        assert(join_lines(ls) + seq!['\n'] =~= ls[0] + seq!['\n'] + Seq::<char>::empty());
        assert(split_lines(Seq::<char>::empty()) =~= Seq::<Seq<char>>::empty());
        assert(ls =~= seq![ls[0]]);
    } else {
        lemma_join_front(ls);
        let rest = ls.drop_first();
        assert forall|i: int| 0 <= i < rest.len() implies plain_line(#[trigger] rest[i]) by {
            assert(rest[i] == ls[i + 1]);
        }
        lemma_split_join(rest);
        crate::text::lemma_split_lines_cons(ls[0], join_lines(rest) + seq!['\n']);
        assert(join_lines(ls) + seq!['\n'] =~= ls[0] + seq!['\n'] + (join_lines(rest) + seq!['\n']));
        assert(ls =~= seq![ls[0]] + rest);
    }
}

proof fn lemma_outside_inside_block(m: Seq<Seq<char>>, rest: Seq<Seq<char>>, i: int)
    requires
        block_lines(m),
        1 <= i <= m.len() - 1,
    ensures
        outside_lines(m.skip(i) + rest, true) == outside_lines(rest, false),
    decreases m.len() - i,
{
    let t = m.skip(i) + rest;
    assert(t[0] == m[i]);
    assert(t.drop_first() =~= m.skip(i + 1) + rest);
    if i == m.len() - 1 {
        assert(m.skip(i + 1) =~= Seq::<Seq<char>>::empty());
        assert(t.drop_first() =~= rest);
        if trim(m[i]) == HEADER@ {
            assert(HEADER@ != FOOTER@) by {
                reveal_strlit("# === Roost-managed begin ===");
                reveal_strlit("# === Roost-managed end ===");
                assert(HEADER@.len() != FOOTER@.len());
            }
        }
    } else {
        assert(!is_marker(m[i]));
        lemma_outside_inside_block(m, rest, i + 1);
    }
}

proof fn lemma_outside_after_block(m: Seq<Seq<char>>, rest: Seq<Seq<char>>)
    requires
        block_lines(m),
    ensures
        outside_lines(m + rest, false) == outside_lines(rest, false),
{
    let t = m + rest;
    assert(t[0] == m[0]);
    assert(t.drop_first() =~= m.skip(1) + rest);
    lemma_outside_inside_block(m, rest, 1);
}

proof fn lemma_outside_plain(d: Seq<Seq<char>>)
    requires
        forall|i: int| 0 <= i < d.len() ==> !is_marker(#[trigger] d[i]),
    ensures
        outside_lines(d, false) == d,
    decreases d.len(),
{
    if d.len() > 0 {
        assert(!is_marker(d[0]));
        let r = d.drop_first();
        assert forall|i: int| 0 <= i < r.len() implies !is_marker(#[trigger] r[i]) by {
            assert(r[i] == d[i + 1]);
        }
        lemma_outside_plain(r);
        assert(d =~= seq![d[0]] + r);
    }
}

proof fn lemma_outside_no_markers(x: Seq<Seq<char>>, b: bool)
    ensures
        forall|i: int| 0 <= i < outside_lines(x, b).len() ==> !is_marker(#[trigger] outside_lines(x, b)[i])
            && x.contains(outside_lines(x, b)[i]),
    decreases x.len(),
{
    if x.len() > 0 {
        let r = x.drop_first();
        lemma_outside_no_markers(r, true);
        lemma_outside_no_markers(r, false);
        assert forall|i: int| 0 <= i < outside_lines(x, b).len() implies !is_marker(#[trigger] outside_lines(x, b)[i])
            && x.contains(outside_lines(x, b)[i]) by {
            let o = outside_lines(x, b);
            if !is_marker(x[0]) && !b {
                if i == 0 {
                    assert(o[0] == x[0]);
                } else {
                    assert(o[i] == outside_lines(r, false)[i - 1]);
                    let j = choose|j: int| 0 <= j < r.len() && r[j] == o[i];
                    assert(x[j + 1] == o[i]);
                }
            } else {
                let bb = if trim(x[0]) == HEADER@ {
                    true
                } else if trim(x[0]) == FOOTER@ {
                    false
                } else {
                    true
                };
                assert(o == outside_lines(r, bb));
                let j = choose|j: int| 0 <= j < r.len() && r[j] == o[i];
                assert(x[j + 1] == o[i]);
            }
        }
    }
}

proof fn lemma_drop_leading_shape(x: Seq<Seq<char>>)
    ensures
        exists|k: int| 0 <= k <= x.len() && #[trigger] drop_leading_blank(x) == x.skip(k),
        drop_leading_blank(x).len() > 0 ==> !is_blank(drop_leading_blank(x)[0]),
    decreases x.len(),
{
    if x.len() > 0 && is_blank(x[0]) {
        lemma_drop_leading_shape(x.drop_first());
        let k = choose|k: int| 0 <= k <= x.drop_first().len() && #[trigger] drop_leading_blank(x.drop_first()) == x.drop_first().skip(k);
        assert(x.drop_first().skip(k) =~= x.skip(k + 1));
    } else {
        assert(x.skip(0) =~= x);
    }
}

proof fn lemma_drop_trailing_shape(x: Seq<Seq<char>>)
    ensures
        exists|k: int| 0 <= k <= x.len() && #[trigger] drop_trailing_blank(x) == x.take(k),
        drop_trailing_blank(x).len() > 0 ==> !is_blank(drop_trailing_blank(x).last()),
        x.len() > 0 && !is_blank(x[0]) ==> drop_trailing_blank(x).len() > 0 && drop_trailing_blank(x)[0] == x[0],
        drop_trailing_blank(drop_trailing_blank(x)) == drop_trailing_blank(x),
    decreases x.len(),
{
    if x.len() > 0 && is_blank(x.last()) {
        lemma_drop_trailing_shape(x.drop_last());
        let k = choose|k: int| 0 <= k <= x.drop_last().len() && #[trigger] drop_trailing_blank(x.drop_last()) == x.drop_last().take(k);
        assert(x.drop_last().take(k) =~= x.take(k));
        if x.len() > 0 && !is_blank(x[0]) {
            assert(x.len() >= 2);
            assert(x.drop_last()[0] == x[0]);
        }
    } else {
        assert(x.take(x.len() as int) =~= x);
    }
}

/// The kept rules: the outside lines without leading and trailing blank ones.
pub open spec fn kept_rules(content: Seq<char>) -> Seq<Seq<char>> {
    drop_trailing_blank(drop_leading_blank(outside_lines(split_lines(content), false)))
}

proof fn lemma_kept_rules_shape(c: Seq<char>)
    requires
        rules_without_cr(c),
    ensures
        forall|i: int| 0 <= i < kept_rules(c).len() ==> plain_line(#[trigger] kept_rules(c)[i]) && !is_marker(kept_rules(c)[i]),
        kept_rules(c).len() > 0 ==> !is_blank(kept_rules(c)[0]) && !is_blank(kept_rules(c).last()),
        drop_leading_blank(kept_rules(c)) == kept_rules(c),
        drop_trailing_blank(kept_rules(c)) == kept_rules(c),
{
    let x = outside_lines(split_lines(c), false);
    lemma_outside_no_markers(split_lines(c), false);
    crate::text::lemma_split_lines_plain(c);
    lemma_drop_leading_shape(x);
    let y = drop_leading_blank(x);
    let k1 = choose|k: int| 0 <= k <= x.len() && #[trigger] drop_leading_blank(x) == x.skip(k);
    lemma_drop_trailing_shape(y);
    let d = drop_trailing_blank(y);
    let k2 = choose|k: int| 0 <= k <= y.len() && #[trigger] drop_trailing_blank(y) == y.take(k);
    assert forall|i: int| 0 <= i < d.len() implies plain_line(#[trigger] d[i]) && !is_marker(d[i]) by {
        assert(d[i] == x[k1 + i]);
        let j = choose|j: int| 0 <= j < split_lines(c).len() && split_lines(c)[j] == x[k1 + i];
        assert(!split_lines(c)[j].contains('\n'));
        assert(kept_rules(c)[i] == d[i]);
    }
    if d.len() > 0 {
        assert(y.len() > 0);
        assert(!is_blank(y[0]));
        assert(d[0] == y[0]);
    }
}

proof fn lemma_join_starts_with_first(d: Seq<Seq<char>>)
    requires
        d.len() >= 1,
    ensures
        join_lines(d).len() >= d[0].len(),
        join_lines(d).take(d[0].len() as int) == d[0],
    decreases d.len(),
{
    if d.len() == 1 {
        assert(d[0].take(d[0].len() as int) =~= d[0]);
    } else {
        lemma_join_starts_with_first(d.drop_last());
        let j = join_lines(d.drop_last());
        assert((j + seq!['\n'] + d.last()).take(d[0].len() as int) =~= j.take(d[0].len() as int));
    }
}

/// Regenerating the `.gitignore` keeps the user's rules: reading the user's rules back
/// from the regenerated content gives the rules it was built from. (Left out are patterns
/// that, read back, put a marker line inside the managed block, and kept rules that
/// still end with a carriage return once read.)
pub proof fn lemma_user_rules_preserved(content: Seq<char>, globals: Seq<Seq<char>>, apps: Seq<(Seq<char>, Application)>)
    requires
        block_lines(managed_read_back(globals, apps)),
        rules_without_cr(content),
    ensures
        user_rules(gitignore_spec(Some(content), globals, apps)) == user_rules(content),
{
    let m = managed_lines(globals, apps);
    let r = managed_read_back(globals, apps);
    let d = kept_rules(content);
    let u = user_rules(content);
    assert(u == join_lines(d));
    lemma_kept_rules_shape(content);
    let out = gitignore_spec(Some(content), globals, apps);
    if trim(u).len() == 0 {
        if d.len() > 0 {
            lemma_join_starts_with_first(d);
            crate::text::lemma_trim_empty(u);
            crate::text::lemma_trim_empty(d[0]);
            assert forall|i: int| 0 <= i < d[0].len() implies crate::text::is_white_space(#[trigger] d[0][i]) by {
                assert(d[0][i] == u.take(d[0].len() as int)[i]);
                assert(u[i] == u.take(d[0].len() as int)[i]);
            }
        }
        assert(d.len() == 0);
        assert(u =~= Seq::<char>::empty());
        assert(out == join_lines(m) + seq!['\n']);
        lemma_outside_after_block(r, Seq::empty());
        assert(r + Seq::<Seq<char>>::empty() =~= r);
        assert(outside_lines(Seq::<Seq<char>>::empty(), false) =~= Seq::<Seq<char>>::empty());
        assert(drop_leading_blank(Seq::<Seq<char>>::empty()) =~= Seq::<Seq<char>>::empty());
        assert(split_lines(out) == r);
        assert(outside_lines(split_lines(out), false) =~= Seq::<Seq<char>>::empty());
        assert(kept_rules(out) =~= Seq::<Seq<char>>::empty());
    } else {
        assert(d.len() > 0) by {
            if d.len() == 0 {
                assert(u =~= Seq::<char>::empty());
            }
        }
        let mid = seq![Seq::<char>::empty()] + d;
        let x = seq!['\n'] + u + seq!['\n'];
        assert(out =~= join_lines(m) + seq!['\n'] + x);
        crate::text::lemma_split_lines_append(join_lines(m), x);
        assert(x =~= Seq::<char>::empty() + seq!['\n'] + (u + seq!['\n']));
        crate::text::lemma_split_lines_cons(Seq::empty(), u + seq!['\n']);
        assert(strip_cr(Seq::<char>::empty()) =~= Seq::<char>::empty());
        lemma_split_join(d);
        assert(split_lines(x) =~= mid);
        assert(split_lines(out) =~= r + mid);
        lemma_outside_after_block(r, mid);
        assert(!is_marker(Seq::<char>::empty())) by {
            reveal_strlit("# === Roost-managed begin ===");
            reveal_strlit("# === Roost-managed end ===");
            assert(trim(Seq::<char>::empty()) =~= Seq::<char>::empty()) by {
                assert(crate::text::trim_start(Seq::<char>::empty()) =~= Seq::<char>::empty());
            }
        }
        assert forall|i: int| 0 <= i < mid.len() implies !is_marker(#[trigger] mid[i]) by {
            if i > 0 {
                assert(mid[i] == d[i - 1]);
            }
        }
        lemma_outside_plain(mid);
        assert(is_blank(mid[0])) by {
            assert(crate::text::trim_start(Seq::<char>::empty()) =~= Seq::<char>::empty());
        }
        assert(drop_leading_blank(mid) == drop_leading_blank(mid.drop_first()));
        assert(mid.drop_first() =~= d);
        assert(outside_lines(split_lines(out), false) == mid);
        assert(kept_rules(out) == d);
    }
}

/// Regenerating twice gives what regenerating once gave: the content depends on the
/// existing file only through the user's rules, which a regeneration keeps. Left out are
/// patterns that, read back, put a marker line inside the managed block, and kept rules
/// that still end with a carriage return once read; on such inputs a second regeneration
/// can differ (a global pattern `x`, line break, footer line, line break, `y` gains a rule
/// `y` the second time; a rule line `secret` followed by two carriage returns loses one).
pub proof fn lemma_regenerate_idempotent(content: Seq<char>, globals: Seq<Seq<char>>, apps: Seq<(Seq<char>, Application)>)
    requires
        block_lines(managed_read_back(globals, apps)),
        rules_without_cr(content),
    ensures
        gitignore_spec(Some(gitignore_spec(Some(content), globals, apps)), globals, apps) == gitignore_spec(
            Some(content),
            globals,
            apps,
        ),
{
    lemma_user_rules_preserved(content, globals, apps);
}

/// Each global pattern stands in the managed block in its own line, in order after the
/// `# global` heading: verbatim, except `.git`, which stands as `**/.git/`.
pub proof fn lemma_globals_in_block(globals: Seq<Seq<char>>, apps: Seq<(Seq<char>, Application)>, i: int)
    requires
        0 <= i < globals.len(),
    ensures
        managed_lines(globals, apps).len() > 5 + i,
        managed_lines(globals, apps)[4] == "# global"@,
        managed_lines(globals, apps)[5 + i] == (if globals[i] == ".git"@ {
            "**/.git/"@
        } else {
            globals[i]
        }),
{
    let base = seq![HEADER@, "local.toml"@, ".backups/"@, "*.local"@];
    let g = base + seq!["# global"@] + globals.map_values(|p: Seq<char>| translated(p));
    assert(g[4] == "# global"@);
    assert(g[5 + i] == translated(globals[i]));
    let w = if per_app_lines(apps).len() > 0 {
        g + seq!["# per-app"@] + per_app_lines(apps)
    } else {
        g
    };
    assert(w[4] == g[4] && w[5 + i] == g[5 + i]);
    let m = w + seq![FOOTER@];
    assert(m[4] == w[4] && m[5 + i] == w[5 + i]);
}

} // verus!
