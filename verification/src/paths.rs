//! Unix paths held as strings, with the joining and prefix rules of `std::path`.
use vstd::prelude::*;

use crate::text::{chars_eq, chars_of, concat_chars, has_prefix, split_chars, split_on, string_from_chars};

verus! {

/// `PathBuf::join` on Unix: an absolute `rel` replaces `base`; otherwise a `/` is put
/// between them unless `base` is empty or already ends with one.
pub open spec fn path_join(base: Seq<char>, rel: Seq<char>) -> Seq<char> {
    if rel.len() > 0 && rel[0] == '/' {
        rel
    } else if base.len() == 0 {
        rel
    } else if base.last() == '/' {
        base + rel
    } else {
        base + seq!['/'] + rel
    }
}

/// Joins `rel` onto `base` (see [`path_join`]).
pub fn join(base: &str, rel: &str) -> (r: String)
    ensures
        r@ == path_join(base@, rel@),
{
    let b = chars_of(base);
    let r = chars_of(rel);
    if r.len() > 0 && r[0] == '/' {
        return string_from_chars(r.as_slice());
    }
    if b.len() == 0 {
        return string_from_chars(r.as_slice());
    }
    if b[b.len() - 1] == '/' {
        let c = concat_chars(b.as_slice(), r.as_slice());
        return string_from_chars(c.as_slice());
    }
    let mut bs = b;
    bs.push('/');
    let c = concat_chars(bs.as_slice(), r.as_slice());
    assert(b@.push('/') =~= b@ + seq!['/']);
    string_from_chars(c.as_slice())
}

/// Joins two relative components onto `base`.
pub fn join2(base: &str, a: &str, b: &str) -> (r: String)
    ensures
        r@ == path_join(path_join(base@, a@), b@),
{
    let first = join(base, a);
    join(first.as_str(), b)
}


/// `s` without trailing `/` characters, except that a lone `/` stays.
pub open spec fn trim_trailing_slashes(s: Seq<char>) -> Seq<char>
    decreases s.len(),
{
    if s.len() > 1 && s.last() == '/' {
        trim_trailing_slashes(s.drop_last())
    } else {
        s
    }
}

/// `s` without leading `/` characters.
pub open spec fn trim_leading_slashes(s: Seq<char>) -> Seq<char>
    decreases s.len(),
{
    if s.len() > 0 && s[0] == '/' {
        trim_leading_slashes(s.drop_first())
    } else {
        s
    }
}

/// What is left of `path` below `base` (`None` when `base` is not a leading part of it):
/// `path` equals `base`, or continues it after a `/`. Trailing slashes of `base` and the
/// slashes that separate the rest are ignored.
pub open spec fn path_rest(path: Seq<char>, base: Seq<char>) -> Option<Seq<char>> {
    let b = trim_trailing_slashes(base);
    if b.len() == 0 {
        None
    } else if path == b {
        Some(Seq::empty())
    } else if b == seq!['/'] {
        if path.len() > 0 && path[0] == '/' {
            Some(trim_leading_slashes(path))
        } else {
            None
        }
    } else if has_prefix(path, b.push('/')) {
        Some(trim_leading_slashes(path.skip(b.len() as int)))
    } else {
        None
    }
}

fn trim_trailing_slashes_vec(s: Vec<char>) -> (r: Vec<char>)
    ensures
        r@ == trim_trailing_slashes(s@),
{
    let ghost orig = s@;
    let mut s = s;
    while s.len() > 1 && s[s.len() - 1] == '/'
        invariant
            trim_trailing_slashes(s@) == trim_trailing_slashes(orig),
        decreases s@.len(),
    {
        s.pop();
    }
    s
}

fn trim_leading_slashes_from(s: &[char], from: usize) -> (r: Vec<char>)
    requires
        from <= s@.len(),
    ensures
        r@ == trim_leading_slashes(s@.skip(from as int)),
{
    let mut i = from;
    while i < s.len() && s[i] == '/'
        invariant
            from <= i <= s@.len(),
            trim_leading_slashes(s@.skip(from as int)) == trim_leading_slashes(s@.skip(i as int)),
        decreases s@.len() - i,
    {
        assert(s@.skip(i as int).drop_first() =~= s@.skip(i + 1));
        i = i + 1;
    }
    let mut r: Vec<char> = Vec::new();
    let mut j = i;
    while j < s.len()
        invariant
            i <= j <= s@.len(),
            r@ == s@.subrange(i as int, j as int),
        decreases s@.len() - j,
    {
        r.push(s[j]);
        assert(s@.subrange(i as int, j + 1) =~= s@.subrange(i as int, j as int).push(s@[j as int]));
        j = j + 1;
    }
    assert(r@ =~= s@.skip(i as int));
    r
}

/// `Path::strip_prefix`: the part of `path` below `base` (see [`path_rest`]).
pub fn strip_path_prefix(path: &str, base: &str) -> (r: Option<String>)
    ensures
        match r {
            Some(s) => path_rest(path@, base@) == Some(s@),
            None => path_rest(path@, base@) is None,
        },
{
    let p = chars_of(path);
    let b = trim_trailing_slashes_vec(chars_of(base));
    if b.len() == 0 {
        return None;
    }
    if crate::text::chars_eq(p.as_slice(), b.as_slice()) {
        return Some(String::new());
    }
    if b.len() == 1 && b[0] == '/' {
        assert(b@ =~= seq!['/']);
        if p.len() > 0 && p[0] == '/' {
            let rest = trim_leading_slashes_from(p.as_slice(), 0);
            assert(p@.skip(0) =~= p@);
            return Some(string_from_chars(rest.as_slice()));
        }
        return None;
    }
    proof {
        if b@ == seq!['/'] {
            assert(b@.len() == 1);
        }
    }
    let mut bs = crate::text::copy_chars(b.as_slice());
    bs.push('/');
    if crate::text::starts_with(p.as_slice(), bs.as_slice()) {
        let rest = trim_leading_slashes_from(p.as_slice(), b.len());
        return Some(string_from_chars(rest.as_slice()));
    }
    None
}

/// Whether `base` is a leading part of `path` (see [`path_rest`]).
pub fn path_starts_with(path: &str, base: &str) -> (r: bool)
    ensures
        r == path_rest(path@, base@) is Some,
{
    strip_path_prefix(path, base).is_some()
}

/// The pieces of a path that `std::path` keeps as components: empty pieces and `.` pieces
/// are dropped.
pub open spec fn normal_parts(pieces: Seq<Seq<char>>) -> Seq<Seq<char>>
    decreases pieces.len(),
{
    if pieces.len() == 0 {
        Seq::empty()
    } else {
        let r = normal_parts(pieces.drop_last());
        let p = pieces.last();
        if p.len() == 0 || p == seq!['.'] {
            r
        } else {
            r.push(p)
        }
    }
}

/// The components of a Unix path as `Path::components` yields them, each written as
/// text: a leading `/` for the root, a leading `.` for a relative path that starts with
/// `./` (or is `.`), then the pieces between separators, without empty and `.` pieces.
/// Two paths are equal (`==` on `Path`) exactly when their components are.
pub open spec fn path_components(s: Seq<char>) -> Seq<Seq<char>> {
    let pieces = split_on(s, '/');
    let head: Seq<Seq<char>> = if s.len() > 0 && s[0] == '/' {
        seq![seq!['/']]
    } else if pieces[0] == seq!['.'] {
        seq![seq!['.']]
    } else {
        Seq::empty()
    };
    head + normal_parts(pieces)
}

/// Computes [`path_components`].
pub fn components(path: &str) -> (r: Vec<Vec<char>>)
    ensures
        r@.len() == path_components(path@).len(),
        forall|k: int| 0 <= k < r@.len() ==> #[trigger] r@[k]@ == path_components(path@)[k],
{
    let c = chars_of(path);
    let pieces = split_chars(c.as_slice(), '/');
    let ghost ps = split_on(path@, '/');
    proof {
        crate::text::lemma_split_on_nonempty(path@, '/');
    }
    let mut out: Vec<Vec<char>> = Vec::new();
    let ghost head: Seq<Seq<char>>;
    if c.len() > 0 && c[0] == '/' {
        let mut root: Vec<char> = Vec::new();
        root.push('/');
        out.push(root);
        proof {
            head = seq![seq!['/']];
        }
    } else if pieces[0].len() == 1 && pieces[0][0] == '.' {
        let mut dot: Vec<char> = Vec::new();
        dot.push('.');
        out.push(dot);
        proof {
            assert(pieces@[0]@ =~= seq!['.']);
            head = seq![seq!['.']];
        }
    } else {
        proof {
            assert(pieces@[0]@ != seq!['.']) by {
                if pieces@[0]@ == seq!['.'] {
                    assert(pieces@[0]@.len() == 1);
                }
            }
            head = Seq::empty();
        }
    }
    assert(head == path_components(path@).take(head.len() as int));
    let mut i: usize = 0;
    while i < pieces.len()
        invariant
            i <= pieces@.len(),
            pieces@.len() == ps.len(),
            ps == split_on(path@, '/'),
            forall|k: int| 0 <= k < pieces@.len() ==> #[trigger] pieces@[k]@ == ps[k],
            head.len() <= 1,
            path_components(path@) == head + normal_parts(ps),
            out@.len() == head.len() + normal_parts(ps.take(i as int)).len(),
            forall|k: int| 0 <= k < out@.len() ==> #[trigger] out@[k]@ == (head + normal_parts(ps.take(i as int)))[k],
        decreases pieces@.len() - i,
    {
        let p = &pieces[i];
        let keep = !(p.len() == 0 || (p.len() == 1 && p[0] == '.'));
        proof {
            assert(ps.take(i + 1).drop_last() =~= ps.take(i as int));
            assert(ps.take(i + 1).last() == ps[i as int]);
            if p@.len() == 1 && p@[0] == '.' {
                assert(p@ =~= seq!['.']);
            }
            if p@ == seq!['.'] {
                assert(p@.len() == 1);
            }
        }
        if keep {
            out.push(crate::text::copy_chars(p.as_slice()));
            proof {
                assert((head + normal_parts(ps.take(i + 1))) =~= (head + normal_parts(ps.take(i as int))).push(ps[i as int]));
            }
        } else {
            proof {
                assert((head + normal_parts(ps.take(i + 1))) =~= (head + normal_parts(ps.take(i as int))));
            }
        }
        i = i + 1;
    }
    proof {
        assert(ps.take(ps.len() as int) =~= ps);
    }
    out
}

/// Whether two paths are equal as `std::path::Path` values (same components).
pub fn same_path(a: &str, b: &str) -> (r: bool)
    ensures
        r == (path_components(a@) == path_components(b@)),
{
    let ca = components(a);
    let cb = components(b);
    if ca.len() != cb.len() {
        return false;
    }
    let mut i: usize = 0;
    while i < ca.len()
        invariant
            i <= ca@.len(),
            ca@.len() == cb@.len(),
            ca@.len() == path_components(a@).len(),
            cb@.len() == path_components(b@).len(),
            forall|k: int| 0 <= k < ca@.len() ==> #[trigger] ca@[k]@ == path_components(a@)[k],
            forall|k: int| 0 <= k < cb@.len() ==> #[trigger] cb@[k]@ == path_components(b@)[k],
            forall|k: int| 0 <= k < i ==> path_components(a@)[k] == path_components(b@)[k],
        decreases ca@.len() - i,
    {
        if !chars_eq(ca[i].as_slice(), cb[i].as_slice()) {
            assert(path_components(a@)[i as int] != path_components(b@)[i as int]);
            return false;
        }
        i = i + 1;
    }
    assert(path_components(a@) =~= path_components(b@));
    true
}

/// The way a path is written in a shared config: `~/rest` when it lies under `home`.
pub open spec fn tilde_form(path: Seq<char>, home: Seq<char>) -> Seq<char> {
    match path_rest(path, home) {
        Some(rest) => "~/"@ + rest,
        None => path,
    }
}

/// Writes `path` relative to `home` as `~/rest` when it lies under `home`.
pub fn to_tilde(path: &str, home: &str) -> (r: String)
    ensures
        r@ == tilde_form(path@, home@),
{
    match strip_path_prefix(path, home) {
        Some(rest) => {
            let t = chars_of("~/");
            let r = chars_of(rest.as_str());
            let c = concat_chars(t.as_slice(), r.as_slice());
            string_from_chars(c.as_slice())
        },
        None => string_from_chars(chars_of(path).as_slice()),
    }
}

/// Expands a leading `~/` (or a lone `~`) to `home`.
pub open spec fn expanded_form(s: Seq<char>, home: Seq<char>) -> Seq<char> {
    if has_prefix(s, "~/"@) {
        path_join(home, s.skip(2))
    } else if s == "~"@ {
        home
    } else {
        s
    }
}

/// Expands a leading `~/` (or a lone `~`) to `home`.
pub fn from_tilde(s: &str, home: &str) -> (r: String)
    ensures
        r@ == expanded_form(s@, home@),
{
    let c = chars_of(s);
    let t = chars_of("~/");
    let lone = chars_of("~");
    proof {
        reveal_strlit("~/");
    }
    if crate::text::starts_with(c.as_slice(), t.as_slice()) {
        assert(s@.subrange(2, 2) =~= Seq::<char>::empty());
        let rest = crate::text::copy_chars(c.as_slice());
        let mut tail: Vec<char> = Vec::new();
        let mut i: usize = 2;
        while i < rest.len()
            invariant
                2 <= i <= rest@.len(),
                rest@ == s@,
                tail@ == s@.subrange(2, i as int),
            decreases rest@.len() - i,
        {
            tail.push(rest[i]);
            assert(s@.subrange(2, i + 1) =~= s@.subrange(2, i as int).push(s@[i as int]));
            i = i + 1;
        }
        assert(tail@ =~= s@.skip(2));
        let ts = string_from_chars(tail.as_slice());
        return join(home, ts.as_str());
    }
    if crate::text::chars_eq(c.as_slice(), lone.as_slice()) {
        return string_from_chars(chars_of(home).as_slice());
    }
    string_from_chars(c.as_slice())
}

/// A path strictly below `home`, written plainly: `home` (no trailing slash), a slash,
/// and a rest that does not start with another slash.
pub open spec fn plainly_below(path: Seq<char>, home: Seq<char>) -> bool {
    &&& home.len() > 0
    &&& home.last() != '/'
    &&& has_prefix(path, home.push('/'))
    &&& path.len() > home.len() as int + 1
    &&& path[home.len() as int + 1] != '/'
}

/// Writing a path below the home directory as `~/rest` and expanding it again gives the
/// path back, and so does expanding a `~/rest` and writing it back.
pub proof fn lemma_tilde_round_trip(path: Seq<char>, home: Seq<char>)
    requires
        plainly_below(path, home),
    ensures
        expanded_form(tilde_form(path, home), home) == path,
        tilde_form(expanded_form(tilde_form(path, home), home), home) == tilde_form(path, home),
        tilde_form(path, home) == "~/"@ + path.skip(home.len() as int + 1),
{
    let r = path.skip(home.len() as int + 1);
    assert(trim_trailing_slashes(home) == home);
    assert(path != home);
    assert(home != seq!['/']) by {
        if home == seq!['/'] {
            assert(home.last() == '/');
        }
    }
    let s = path.skip(home.len() as int);
    assert(s[0] == '/') by {
        assert(path.take(home.len() as int + 1) == home.push('/'));
        assert(path[home.len() as int] == home.push('/')[home.len() as int]);
    }
    assert(s.drop_first() =~= r);
    assert(r[0] != '/');
    assert(trim_leading_slashes(r) == r);
    assert(trim_leading_slashes(s) == r);
    assert(path_rest(path, home) == Some(r));
    reveal_strlit("~/");
    let t = "~/"@ + r;
    assert(t.take(2) =~= "~/"@);
    assert(has_prefix(t, "~/"@));
    assert(t.skip(2) =~= r);
    assert(path_join(home, r) == home + seq!['/'] + r);
    assert(home + seq!['/'] + r =~= path) by {
        assert(path.take(home.len() as int + 1) == home.push('/'));
        assert forall|i: int| 0 <= i < path.len() implies (home + seq!['/'] + r)[i] == path[i] by {
            if i < home.len() as int + 1 {
                assert(path.take(home.len() as int + 1)[i] == path[i]);
            }
        }
    }
}

} // verus!
