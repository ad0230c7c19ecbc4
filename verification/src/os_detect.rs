//! Operating system information kept in the local configuration.
use vstd::prelude::*;

use crate::text::{chars_of, has_prefix, lines_of, lowercase_of, split_lines, string_from_chars, to_lowercase};

verus! {

/// OS and hardware information stored in local.toml.
#[derive(Debug, Clone)]
pub struct OsInfo {
    /// "unix" or "windows"
    pub family: String,
    /// Distro/OS slug: "macos", "arch", "ubuntu", "debian", "fedora", "nixos", etc.
    pub name: String,
    /// Version string when detectable (e.g. "15.3.1" for macOS, "22.04" for Ubuntu)
    pub version: Option<String>,
    /// CPU architecture from the Rust target triple: "x86_64", "aarch64", etc.
    pub arch: String,
}

/// `s` without leading `"` characters.
pub open spec fn trim_quotes_start(s: Seq<char>) -> Seq<char>
    decreases s.len(),
{
    if s.len() > 0 && s[0] == '"' {
        trim_quotes_start(s.drop_first())
    } else {
        s
    }
}

/// `s` without trailing `"` characters.
pub open spec fn trim_quotes_end(s: Seq<char>) -> Seq<char>
    decreases s.len(),
{
    if s.len() > 0 && s.last() == '"' {
        trim_quotes_end(s.drop_last())
    } else {
        s
    }
}

/// `str::trim_matches('"')`.
pub open spec fn trim_quotes(s: Seq<char>) -> Seq<char> {
    trim_quotes_end(trim_quotes_start(s))
}

fn trim_quotes_vec(s: &[char]) -> (r: Vec<char>)
    ensures
        r@ == trim_quotes(s@),
{
    let mut a: usize = 0;
    assert(s@.skip(0) =~= s@);
    while a < s.len() && s[a] == '"'
        invariant
            a <= s@.len(),
            trim_quotes_start(s@) == trim_quotes_start(s@.skip(a as int)),
        decreases s@.len() - a,
    {
        assert(s@.skip(a as int).drop_first() =~= s@.skip(a + 1));
        a = a + 1;
    }
    let mut r: Vec<char> = Vec::new();
    let mut i = a;
    while i < s.len()
        invariant
            a <= i <= s@.len(),
            r@ == s@.subrange(a as int, i as int),
        decreases s@.len() - i,
    {
        r.push(s[i]);
        assert(s@.subrange(a as int, i + 1) =~= s@.subrange(a as int, i as int).push(s@[i as int]));
        i = i + 1;
    }
    assert(r@ =~= s@.skip(a as int));
    let ghost mid = r@;
    while r.len() > 0 && r[r.len() - 1] == '"'
        invariant
            trim_quotes_end(r@) == trim_quotes_end(mid),
        decreases r@.len(),
    {
        r.pop();
    }
    r
}

fn tail_from(s: &[char], from: usize) -> (r: Vec<char>)
    requires
        from <= s@.len(),
    ensures
        r@ == s@.skip(from as int),
{
    let mut r: Vec<char> = Vec::new();
    let mut i = from;
    while i < s.len()
        invariant
            from <= i <= s@.len(),
            r@ == s@.subrange(from as int, i as int),
        decreases s@.len() - i,
    {
        r.push(s[i]);
        assert(s@.subrange(from as int, i + 1) =~= s@.subrange(from as int, i as int).push(
            s@[i as int],
        ));
        i = i + 1;
    }
    assert(r@ =~= s@.skip(from as int));
    r
}

/// The `ID` and `VERSION_ID` values of os-release lines; the last line of each kind wins.
/// The `ID` is lowercased; both have surrounding quotes removed.
pub open spec fn release_fields(lines: Seq<Seq<char>>) -> (Option<Seq<char>>, Option<Seq<char>>)
    decreases lines.len(),
{
    if lines.len() == 0 {
        (None, None)
    } else {
        let (id, ver) = release_fields(lines.drop_last());
        let l = lines.last();
        if has_prefix(l, "ID="@) {
            (Some(lowercase_of(trim_quotes(l.skip(3)))), ver)
        } else if has_prefix(l, "VERSION_ID="@) {
            (id, Some(trim_quotes(l.skip(11))))
        } else {
            (id, ver)
        }
    }
}

/// Parses the content of `/etc/os-release` into (distro id, version id); the id is
/// `"linux"` when the file names none.
pub fn parse_os_release(content: &str) -> (r: (String, Option<String>))
    ensures
        r.0@ == (match release_fields(split_lines(content@)).0 {
            Some(id) => id,
            None => "linux"@,
        }),
        match r.1 {
            Some(v) => release_fields(split_lines(content@)).1 == Some(v@),
            None => release_fields(split_lines(content@)).1 is None,
        },
{
    proof {
        reveal_strlit("ID=");
        reveal_strlit("VERSION_ID=");
    }
    let chars = chars_of(content);
    let lines = lines_of(chars.as_slice());
    let ghost ls = split_lines(content@);
    let id_key = chars_of("ID=");
    let ver_key = chars_of("VERSION_ID=");
    let mut id: Option<String> = None;
    let mut version: Option<String> = None;
    let mut i: usize = 0;
    while i < lines.len()
        invariant
            i <= lines@.len(),
            ls == split_lines(content@),
            chars@ == content@,
            lines@.len() == ls.len(),
            forall|k: int| 0 <= k < lines@.len() ==> #[trigger] lines@[k]@ == ls[k],
            id_key@ == "ID="@,
            ver_key@ == "VERSION_ID="@,
            "ID="@.len() == 3,
            "VERSION_ID="@.len() == 11,
            match id {
                Some(v) => release_fields(ls.take(i as int)).0 == Some(v@),
                None => release_fields(ls.take(i as int)).0 is None,
            },
            match version {
                Some(v) => release_fields(ls.take(i as int)).1 == Some(v@),
                None => release_fields(ls.take(i as int)).1 is None,
            },
        decreases lines@.len() - i,
    {
        let line = &lines[i];
        proof {
            assert(ls.take(i + 1).drop_last() =~= ls.take(i as int));
            assert(ls.take(i + 1).last() == ls[i as int]);
        }
        if crate::text::starts_with(line.as_slice(), id_key.as_slice()) {
            let rest = tail_from(line.as_slice(), 3);
            let q = trim_quotes_vec(rest.as_slice());
            let qs = string_from_chars(q.as_slice());
            id = Some(to_lowercase(qs.as_str()));
        } else if crate::text::starts_with(line.as_slice(), ver_key.as_slice()) {
            let rest = tail_from(line.as_slice(), 11);
            let q = trim_quotes_vec(rest.as_slice());
            version = Some(string_from_chars(q.as_slice()));
        }
        i = i + 1;
    }
    assert(ls.take(i as int) =~= ls);
    let name = match id {
        Some(v) => v,
        None => string_from_chars(chars_of("linux").as_slice()),
    };
    (name, version)
}

} // verus!
