use vstd::prelude::*;

verus! {

/// The characters of `s`, in order.
pub fn chars_of(s: &str) -> (v: Vec<char>)
    ensures
        v@ == s@,
{
    broadcast use vstd::string::group_string_axioms;

    let mut v: Vec<char> = Vec::new();
    for c in it: s.chars()
        invariant
            v@ == it.seq().take(it.index()),
            it.seq() == s@,
    {
        v.push(c);
    }
    v
}

/// `String::push`: appends one character at the end of the string.
#[verifier::external_body]
pub(crate) fn push_char(s: &mut String, c: char)
    ensures
        final(s)@ == old(s)@.push(c),
{
    s.push(c);
}

/// Removes the last character of `s`, if any (`String::pop`).
#[verifier::external_body]
pub(crate) fn pop_char(s: &mut String)
    ensures
        final(s)@ == (if old(s)@.len() > 0 {
            old(s)@.drop_last()
        } else {
            old(s)@
        }),
{
    s.pop();
}

/// The string made of the characters of `v`, in order.
pub fn string_from_chars(v: &[char]) -> (s: String)
    ensures
        s@ == v@,
{
    let mut s = String::new();
    let mut i: usize = 0;
    while i < v.len()
        invariant
            i <= v@.len(),
            s@ == v@.take(i as int),
        decreases v@.len() - i,
    {
        push_char(&mut s, v[i]);
        assert(v@.take(i as int).push(v@[i as int]) =~= v@.take(i + 1));
        i = i + 1;
    }
    assert(v@.take(v@.len() as int) =~= v@);
    s
}

/// Whether two strings hold the same characters.
pub fn str_eq(a: &str, b: &str) -> (r: bool)
    ensures
        r == (a@ == b@),
{
    let ca = chars_of(a);
    let cb = chars_of(b);
    chars_eq(ca.as_slice(), cb.as_slice())
}

/// Appends `t` at the end of `s`.
pub fn append_str(s: &mut String, t: &str)
    ensures
        final(s)@ == old(s)@ + t@,
{
    let c = chars_of(t);
    let ghost s0 = s@;
    let mut i: usize = 0;
    while i < c.len()
        invariant
            i <= c@.len(),
            c@ == t@,
            s@ == s0 + c@.take(i as int),
        decreases c@.len() - i,
    {
        push_char(s, c[i]);
        assert(c@.take(i + 1) =~= c@.take(i as int).push(c@[i as int]));
        i = i + 1;
    }
    assert(c@.take(c@.len() as int) =~= c@);
}

/// `a` followed by `b`.
pub fn concat(a: &str, b: &str) -> (r: String)
    ensures
        r@ == a@ + b@,
{
    let mut r = a.to_owned();
    append_str(&mut r, b);
    r
}

/// Names what `str::to_lowercase` returns for a string: the Unicode lowercase mapping.
pub uninterp spec fn lowercase_of(s: Seq<char>) -> Seq<char>;

/// A character as `char::to_ascii_lowercase` gives it: `A` to `Z` become `a` to `z`, all
/// else stays.
pub open spec fn ascii_lower(c: char) -> char {
    if 'A' <= c && c <= 'Z' {
        ((c as u32) + 32) as char
    } else {
        c
    }
}

/// Every character of `s` is ASCII.
pub open spec fn all_ascii(s: Seq<char>) -> bool {
    forall|i: int| 0 <= i < s.len() ==> (s[i] as u32) < 128
}

/// `str::to_lowercase`: the lowercase form of `s` (Unicode `Lowercase` mapping, with the
/// final-sigma rule). The result is named; beyond the name it states that an empty string
/// stays empty and that an ASCII string is lowered character by character, as
/// `to_ascii_lowercase` does. Other characters' mappings are left unsaid.
#[verifier::external_body]
pub(crate) fn to_lowercase(s: &str) -> (r: String)
    ensures
        r@ == lowercase_of(s@),
        s@.len() == 0 ==> r@.len() == 0,
        all_ascii(s@) ==> r@.len() == s@.len() && forall|i: int| 0 <= i < s@.len() ==> #[trigger] r@[i] == ascii_lower(s@[i]),
{
    s.to_lowercase()
}

/// Whether `c` has the Unicode `White_Space` property, which is what `char::is_whitespace`
/// and `str::trim` test.
pub open spec fn is_white_space(c: char) -> bool {
    ||| ('\u{9}' <= c && c <= '\u{d}')
    ||| c == ' '
    ||| c == '\u{85}'
    ||| c == '\u{a0}'
    ||| c == '\u{1680}'
    ||| ('\u{2000}' <= c && c <= '\u{200a}')
    ||| c == '\u{2028}'
    ||| c == '\u{2029}'
    ||| c == '\u{202f}'
    ||| c == '\u{205f}'
    ||| c == '\u{3000}'
}

/// Executable form of [`is_white_space`].
pub fn is_whitespace(c: char) -> (r: bool)
    ensures
        r == is_white_space(c),
{
    ('\u{9}' <= c && c <= '\u{d}') || c == ' ' || c == '\u{85}' || c == '\u{a0}' || c
        == '\u{1680}' || ('\u{2000}' <= c && c <= '\u{200a}') || c == '\u{2028}' || c
        == '\u{2029}' || c == '\u{202f}' || c == '\u{205f}' || c == '\u{3000}'
}

/// `s` without its leading white space.
pub open spec fn trim_start(s: Seq<char>) -> Seq<char>
    decreases s.len(),
{
    if s.len() > 0 && is_white_space(s[0]) {
        trim_start(s.drop_first())
    } else {
        s
    }
}

/// `s` without its trailing white space.
pub open spec fn trim_end(s: Seq<char>) -> Seq<char>
    decreases s.len(),
{
    if s.len() > 0 && is_white_space(s.last()) {
        trim_end(s.drop_last())
    } else {
        s
    }
}

/// `s` without leading and trailing white space (what `str::trim` gives).
pub open spec fn trim(s: Seq<char>) -> Seq<char> {
    trim_end(trim_start(s))
}

/// Every character of `s` is white space.
pub open spec fn all_white(s: Seq<char>) -> bool {
    forall|i: int| 0 <= i < s.len() ==> is_white_space(#[trigger] s[i])
}

proof fn lemma_trim_start_skip(s: Seq<char>, k: int)
    requires
        0 <= k <= s.len(),
        all_white(s.take(k)),
        k < s.len() ==> !is_white_space(s[k]),
    ensures
        trim_start(s) == s.skip(k),
    decreases k,
{
    if k == 0 {
        assert(s.skip(0) =~= s);
    } else {
        assert(is_white_space(s.take(k)[0]));
        let t = s.drop_first();
        assert(t.take(k - 1) =~= s.take(k).drop_first());
        assert forall|i: int| 0 <= i < k - 1 implies is_white_space(#[trigger] t.take(k - 1)[i]) by {
            assert(t.take(k - 1)[i] == s.take(k)[i + 1]);
        }
        lemma_trim_start_skip(t, k - 1);
        assert(t.skip(k - 1) =~= s.skip(k));
    }
}

proof fn lemma_trim_end_take(s: Seq<char>, k: int)
    requires
        0 <= k <= s.len(),
        all_white(s.skip(k)),
        k > 0 ==> !is_white_space(s[k - 1]),
    ensures
        trim_end(s) == s.take(k),
    decreases s.len() - k,
{
    if k == s.len() {
        assert(s.take(k) =~= s);
    } else {
        assert(is_white_space(s.skip(k)[s.len() - k - 1]));
        let t = s.drop_last();
        assert forall|i: int| 0 <= i < t.skip(k).len() implies is_white_space(
            #[trigger] t.skip(k)[i],
        ) by {
            assert(t.skip(k)[i] == s.skip(k)[i]);
        }
        lemma_trim_end_take(t, k);
        assert(t.take(k) =~= s.take(k));
    }
}

/// `str::trim` on a character sequence: drops leading and trailing white space.
pub fn trim_chars(s: &[char]) -> (r: Vec<char>)
    ensures
        r@ == trim(s@),
{
    let n = s.len();
    let mut a: usize = 0;
    while a < n && is_whitespace(s[a])
        invariant
            a <= n,
            n == s@.len(),
            all_white(s@.take(a as int)),
        decreases n - a,
    {
        assert(s@.take(a + 1) =~= s@.take(a as int).push(s@[a as int]));
        a = a + 1;
    }
    proof {
        lemma_trim_start_skip(s@, a as int);
    }
    let mut b: usize = n;
    while b > a && is_whitespace(s[b - 1])
        invariant
            a <= b <= n,
            n == s@.len(),
            all_white(s@.subrange(b as int, n as int)),
        decreases b,
    {
        assert(s@.subrange(b - 1, n as int)[0] == s@[b - 1]);
        assert forall|i: int| 0 <= i < n - (b - 1) implies is_white_space(
            #[trigger] s@.subrange(b - 1, n as int)[i],
        ) by {
            if i > 0 {
                assert(s@.subrange(b - 1, n as int)[i] == s@.subrange(b as int, n as int)[i - 1]);
            }
        }
        b = b - 1;
    }
    let ghost t = s@.skip(a as int);
    proof {
        assert(t.skip(b - a) =~= s@.subrange(b as int, n as int));
        if b > a {
            assert(t[b - a - 1] == s@[b - 1]);
        }
        lemma_trim_end_take(t, b - a);
    }
    let mut r: Vec<char> = Vec::new();
    let mut i: usize = a;
    while i < b
        invariant
            a <= i <= b <= n,
            n == s@.len(),
            r@ == s@.subrange(a as int, i as int),
        decreases b - i,
    {
        r.push(s[i]);
        assert(s@.subrange(a as int, i + 1) =~= s@.subrange(a as int, i as int).push(s@[i as int]));
        i = i + 1;
    }
    assert(r@ =~= t.take(b - a));
    r
}

/// `str::trim` on a string.
pub fn trim_str(s: &str) -> (r: String)
    ensures
        r@ == trim(s@),
{
    let v = chars_of(s);
    let t = trim_chars(v.as_slice());
    string_from_chars(t.as_slice())
}

/// Index of the first `'\n'` in `s` at or after `from`, or `s.len()` when there is none.
pub open spec fn newline_from(s: Seq<char>, from: int) -> int
    decreases s.len() - from,
{
    if from >= s.len() {
        s.len() as int
    } else if s[from] == '\n' {
        from
    } else {
        newline_from(s, from + 1)
    }
}

/// `line` without one trailing carriage return.
pub open spec fn strip_cr(line: Seq<char>) -> Seq<char> {
    if line.len() > 0 && line.last() == '\r' {
        line.drop_last()
    } else {
        line
    }
}

/// The lines of `s`, as `str::lines` gives them: split at `'\n'`, one trailing `'\r'` removed
/// from each line, and no empty line after a final `'\n'`.
pub open spec fn split_lines(s: Seq<char>) -> Seq<Seq<char>>
    decreases s.len(),
{
    if s.len() == 0 {
        Seq::empty()
    } else {
        let k = newline_from(s, 0);
        proof {
            lemma_newline_from_bounds(s, 0);
        }
        if k >= s.len() {
            seq![strip_cr(s)]
        } else {
            seq![strip_cr(s.take(k))] + split_lines(s.skip(k + 1))
        }
    }
}

pub proof fn lemma_newline_from_bounds(s: Seq<char>, from: int)
    requires
        0 <= from <= s.len(),
    ensures
        from <= newline_from(s, from) <= s.len(),
    decreases s.len() - from,
{
    if from < s.len() && s[from] != '\n' {
        lemma_newline_from_bounds(s, from + 1);
    }
}

proof fn lemma_newline_from_shift(s: Seq<char>, start: int, i: int)
    requires
        0 <= start <= i <= s.len(),
        forall|j: int| start <= j < i ==> s[j] != '\n',
    ensures
        newline_from(s.skip(start), 0) == newline_from(s.skip(start), i - start),
    decreases i - start,
{
    if i > start {
        let t = s.skip(start);
        lemma_newline_from_step(t, 0, i - start);
    }
}

proof fn lemma_newline_from_step(t: Seq<char>, from: int, to: int)
    requires
        0 <= from <= to <= t.len(),
        forall|j: int| from <= j < to ==> t[j] != '\n',
    ensures
        newline_from(t, from) == newline_from(t, to),
    decreases to - from,
{
    if from < to {
        lemma_newline_from_step(t, from + 1, to);
    }
}

fn strip_cr_vec(line: Vec<char>) -> (r: Vec<char>)
    ensures
        r@ == strip_cr(line@),
{
    let mut line = line;
    if line.len() > 0 && line[line.len() - 1] == '\r' {
        line.pop();
    }
    line
}

/// `str::lines` on a character sequence.
pub fn lines_of(s: &[char]) -> (r: Vec<Vec<char>>)
    ensures
        r@.len() == split_lines(s@).len(),
        forall|k: int| 0 <= k < r@.len() ==> #[trigger] r@[k]@ == split_lines(s@)[k],
{
    let n = s.len();
    let mut out: Vec<Vec<char>> = Vec::new();
    let mut cur: Vec<char> = Vec::new();
    let mut start: usize = 0;
    let mut i: usize = 0;
    let ghost mut outv: Seq<Seq<char>> = Seq::empty();
    assert(s@.skip(0) =~= s@);
    assert(outv + split_lines(s@) =~= split_lines(s@));
    while i < n
        invariant
            start <= i <= n,
            n == s@.len(),
            cur@ == s@.subrange(start as int, i as int),
            forall|j: int| start <= j < i ==> s@[j] != '\n',
            out@.len() == outv.len(),
            forall|k: int| 0 <= k < out@.len() ==> #[trigger] out@[k]@ == outv[k],
            split_lines(s@) == outv + split_lines(s@.skip(start as int)),
        decreases n - i,
    {
        if s[i] == '\n' {
            proof {
                let t = s@.skip(start as int);
                lemma_newline_from_shift(s@, start as int, i as int);
                assert(t[i - start] == '\n');
                assert(newline_from(t, 0) == i - start);
                assert(t.take(i - start) =~= cur@);
                assert(t.skip(i - start + 1) =~= s@.skip(i + 1));
                assert(split_lines(t) == seq![strip_cr(cur@)] + split_lines(s@.skip(i + 1)));
            }
            let line = strip_cr_vec(cur);
            proof {
                outv = outv.push(line@);
                assert(seq![line@] + split_lines(s@.skip(i + 1)) =~= split_lines(
                    s@.skip(start as int),
                ));
                assert(outv =~= outv.drop_last() + seq![line@]);
            }
            out.push(line);
            cur = Vec::new();
            start = i + 1;
        } else {
            cur.push(s[i]);
            assert(s@.subrange(start as int, i + 1) =~= s@.subrange(start as int, i as int).push(
                s@[i as int],
            ));
        }
        i = i + 1;
    }
    proof {
        let t = s@.skip(start as int);
        assert(t =~= cur@);
        if t.len() > 0 {
            lemma_newline_from_shift(s@, start as int, n as int);
            assert(newline_from(t, t.len() as int) == t.len());
        }
    }
    if start < n {
        let line = strip_cr_vec(cur);
        proof {
            outv = outv.push(line@);
        }
        out.push(line);
    }
    proof {
        if start >= n {
            assert(split_lines(s@.skip(start as int)) =~= Seq::<Seq<char>>::empty());
            assert(outv + Seq::<Seq<char>>::empty() =~= outv);
        }
    }
    out
}

/// Index of the first `c` in `s` at or after `from`, or `s.len()` when there is none.
pub open spec fn char_from(s: Seq<char>, from: int, c: char) -> int
    decreases s.len() - from,
{
    if from >= s.len() {
        s.len() as int
    } else if s[from] == c {
        from
    } else {
        char_from(s, from + 1, c)
    }
}

pub proof fn lemma_char_from_bounds(s: Seq<char>, from: int, c: char)
    requires
        0 <= from <= s.len(),
    ensures
        from <= char_from(s, from, c) <= s.len(),
        char_from(s, from, c) < s.len() ==> s[char_from(s, from, c)] == c,
        forall|j: int| from <= j < char_from(s, from, c) ==> s[j] != c,
    decreases s.len() - from,
{
    if from < s.len() && s[from] != c {
        lemma_char_from_bounds(s, from + 1, c);
    }
}

proof fn lemma_char_from_step(t: Seq<char>, from: int, to: int, c: char)
    requires
        0 <= from <= to <= t.len(),
        forall|j: int| from <= j < to ==> t[j] != c,
    ensures
        char_from(t, from, c) == char_from(t, to, c),
    decreases to - from,
{
    if from < to {
        lemma_char_from_step(t, from + 1, to, c);
    }
}

/// The pieces of `s` between occurrences of `c`, as `str::split` with a character gives
/// them: always at least one piece, empty pieces kept.
pub open spec fn split_on(s: Seq<char>, c: char) -> Seq<Seq<char>>
    decreases s.len(),
{
    let k = char_from(s, 0, c);
    proof {
        lemma_char_from_bounds(s, 0, c);
    }
    if k >= s.len() {
        seq![s]
    } else {
        seq![s.take(k)] + split_on(s.skip(k + 1), c)
    }
}

/// `split_on` always gives at least one piece.
pub proof fn lemma_split_on_nonempty(s: Seq<char>, c: char)
    ensures
        split_on(s, c).len() >= 1,
        s.len() == 0 ==> split_on(s, c) == seq![s],
{
    lemma_char_from_bounds(s, 0, c);
}

/// A line break splits off the line before it.
pub proof fn lemma_split_lines_cons(a: Seq<char>, b: Seq<char>)
    requires
        !a.contains('\n'),
    ensures
        split_lines(a + seq!['\n'] + b) == seq![strip_cr(a)] + split_lines(b),
{
    let s = a + seq!['\n'] + b;
    assert(s[a.len() as int] == '\n');
    assert forall|j: int| 0 <= j < a.len() implies s[j] != '\n' by {
        assert(s[j] == a[j]);
        if s[j] == '\n' {
            assert(a.contains('\n'));
        }
    }
    lemma_newline_from_step(s, 0, a.len() as int);
    assert(newline_from(s, 0) == a.len());
    assert(s.take(a.len() as int) =~= a);
    assert(s.skip(a.len() as int + 1) =~= b);
}

proof fn lemma_newline_at(s: Seq<char>, from: int)
    requires
        0 <= from <= s.len(),
    ensures
        newline_from(s, from) < s.len() ==> s[newline_from(s, from)] == '\n',
    decreases s.len() - from,
{
    if from < s.len() && s[from] != '\n' {
        lemma_newline_at(s, from + 1);
    }
}

/// Reading lines across a line break: the lines of `a`, a line break, then `b` are the
/// lines of `a` ended by that break, followed by the lines of `b`.
pub proof fn lemma_split_lines_append(a: Seq<char>, b: Seq<char>)
    ensures
        split_lines(a + seq!['\n'] + b) == split_lines(a + seq!['\n']) + split_lines(b),
    decreases a.len(),
{
    if !a.contains('\n') {
        lemma_split_lines_cons(a, b);
        lemma_split_lines_cons(a, Seq::empty());
        assert(a + seq!['\n'] + Seq::<char>::empty() =~= a + seq!['\n']);
        assert(split_lines(Seq::<char>::empty()) =~= Seq::<Seq<char>>::empty());
    } else {
        let k = newline_from(a, 0);
        lemma_newline_from_bounds(a, 0);
        lemma_newline_before(a, 0);
        lemma_newline_at(a, 0);
        let j = choose|j: int| 0 <= j < a.len() && a[j] == '\n';
        assert(k < a.len()) by {
            if k >= a.len() {
                assert(a[j] != '\n');
            }
        }
        let a1 = a.take(k);
        let a2 = a.skip(k + 1);
        assert(a =~= a1 + seq!['\n'] + a2);
        assert(!a1.contains('\n')) by {
            if a1.contains('\n') {
                let i = choose|i: int| 0 <= i < a1.len() && a1[i] == '\n';
                assert(a[i] == a1[i]);
            }
        }
        lemma_split_lines_append(a2, b);
        lemma_split_lines_cons(a1, a2 + seq!['\n'] + b);
        lemma_split_lines_cons(a1, a2 + seq!['\n']);
        assert(a + seq!['\n'] + b =~= a1 + seq!['\n'] + (a2 + seq!['\n'] + b));
        assert(a + seq!['\n'] =~= a1 + seq!['\n'] + (a2 + seq!['\n']));
        assert(seq![strip_cr(a1)] + split_lines(a2 + seq!['\n']) + split_lines(b) =~= seq![strip_cr(a1)] + (
        split_lines(a2 + seq!['\n']) + split_lines(b)));
    }
}

/// No line that `split_lines` gives holds a line break.
pub proof fn lemma_split_lines_plain(s: Seq<char>)
    ensures
        forall|i: int| 0 <= i < split_lines(s).len() ==> !(#[trigger] split_lines(s)[i]).contains('\n'),
    decreases s.len(),
{
    if s.len() > 0 {
        let k = newline_from(s, 0);
        lemma_newline_from_bounds(s, 0);
        lemma_newline_before(s, 0);
        let first = strip_cr(if k >= s.len() { s } else { s.take(k) });
        assert(!first.contains('\n')) by {
            if first.contains('\n') {
                let j = choose|j: int| 0 <= j < first.len() && first[j] == '\n';
                assert(s[j] == '\n');
            }
        }
        if k < s.len() {
            lemma_split_lines_plain(s.skip(k + 1));
            assert forall|i: int| 0 <= i < split_lines(s).len() implies !(#[trigger] split_lines(s)[i]).contains('\n') by {
                if i > 0 {
                    assert(split_lines(s)[i] == split_lines(s.skip(k + 1))[i - 1]);
                }
            }
        }
    }
}

proof fn lemma_newline_before(s: Seq<char>, from: int)
    requires
        0 <= from <= s.len(),
    ensures
        forall|j: int| from <= j < newline_from(s, from) ==> s[j] != '\n',
    decreases s.len() - from,
{
    if from < s.len() && s[from] != '\n' {
        lemma_newline_before(s, from + 1);
    }
}

/// A text is blank exactly when all its characters are white space.
pub proof fn lemma_trim_empty(s: Seq<char>)
    ensures
        (trim(s).len() == 0) == all_white(s),
    decreases s.len(),
{
    lemma_trim_start_shape(s);
    let k = choose|k: int| 0 <= k <= s.len() && all_white(s.take(k)) && trim_start(s) == s.skip(k);
    let t = trim_start(s);
    lemma_trim_end_empty(t);
    if t.len() > 0 {
        assert(!is_white_space(t[0]));
        assert(!all_white(t));
        assert(s[k] == t[0]);
        assert(!all_white(s));
    } else {
        assert(all_white(s)) by {
            assert forall|i: int| 0 <= i < s.len() implies is_white_space(#[trigger] s[i]) by {
                assert(s.take(k)[i] == s[i]);
            }
        }
    }
}

proof fn lemma_trim_end_empty(t: Seq<char>)
    ensures
        (trim_end(t).len() == 0) == all_white(t),
    decreases t.len(),
{
    if t.len() > 0 {
        if is_white_space(t.last()) {
            lemma_trim_end_empty(t.drop_last());
            if all_white(t.drop_last()) {
                assert forall|i: int| 0 <= i < t.len() implies is_white_space(#[trigger] t[i]) by {
                    if i < t.len() - 1 {
                        assert(t.drop_last()[i] == t[i]);
                    }
                }
            } else {
                let i = choose|i: int| 0 <= i < t.drop_last().len() && !is_white_space(t.drop_last()[i]);
                assert(t[i] == t.drop_last()[i]);
            }
        } else {
            assert(!all_white(t));
        }
    }
}

/// `str::split` with a single character, on a character sequence.
pub fn split_chars(s: &[char], c: char) -> (r: Vec<Vec<char>>)
    ensures
        r@.len() == split_on(s@, c).len(),
        forall|k: int| 0 <= k < r@.len() ==> #[trigger] r@[k]@ == split_on(s@, c)[k],
{
    let n = s.len();
    let mut out: Vec<Vec<char>> = Vec::new();
    let mut cur: Vec<char> = Vec::new();
    let mut start: usize = 0;
    let mut i: usize = 0;
    let ghost mut outv: Seq<Seq<char>> = Seq::empty();
    assert(s@.skip(0) =~= s@);
    assert(outv + split_on(s@, c) =~= split_on(s@, c));
    while i < n
        invariant
            start <= i <= n,
            n == s@.len(),
            cur@ == s@.subrange(start as int, i as int),
            forall|j: int| start <= j < i ==> s@[j] != c,
            out@.len() == outv.len(),
            forall|k: int| 0 <= k < out@.len() ==> #[trigger] out@[k]@ == outv[k],
            split_on(s@, c) == outv + split_on(s@.skip(start as int), c),
        decreases n - i,
    {
        if s[i] == c {
            proof {
                let t = s@.skip(start as int);
                lemma_char_from_step(t, 0, i - start, c);
                assert(t[i - start] == c);
                assert(char_from(t, 0, c) == i - start);
                assert(t.take(i - start) =~= cur@);
                assert(t.skip(i - start + 1) =~= s@.skip(i + 1));
                assert(split_on(t, c) == seq![cur@] + split_on(s@.skip(i + 1), c));
                outv = outv.push(cur@);
                assert(seq![cur@] + split_on(s@.skip(i + 1), c) =~= split_on(s@.skip(start as int), c));
                assert(outv =~= outv.drop_last() + seq![cur@]);
            }
            out.push(cur);
            cur = Vec::new();
            start = i + 1;
        } else {
            cur.push(s[i]);
            assert(s@.subrange(start as int, i + 1) =~= s@.subrange(start as int, i as int).push(
                s@[i as int],
            ));
        }
        i = i + 1;
    }
    proof {
        let t = s@.skip(start as int);
        assert(t =~= cur@);
        lemma_char_from_step(t, 0, t.len() as int, c);
        assert(char_from(t, t.len() as int, c) == t.len());
        assert(split_on(t, c) == seq![cur@]);
        outv = outv.push(cur@);
    }
    out.push(cur);
    out
}

/// `s` holds `t` as a contiguous piece.
pub open spec fn has_infix(s: Seq<char>, t: Seq<char>) -> bool {
    exists|i: int| 0 <= i && i + t.len() <= s.len() && #[trigger] s.subrange(i, i + t.len()) == t
}

/// Whether `s` holds `t` (`str::contains` with a string pattern).
pub fn contains_text(s: &str, t: &str) -> (r: bool)
    ensures
        r == has_infix(s@, t@),
{
    let a = chars_of(s);
    let b = chars_of(t);
    if b.len() > a.len() {
        proof {
            assert forall|i: int| 0 <= i && i + t@.len() <= s@.len() implies #[trigger] s@.subrange(i, i + t@.len()) != t@ by {}
        }
        return false;
    }
    let mut i: usize = 0;
    let last: usize = a.len() - b.len();
    while i <= last
        invariant
            last == a@.len() - b@.len(),
            a@.len() <= usize::MAX,
            a@ == s@,
            b@ == t@,
            b@.len() <= a@.len(),
            i <= a@.len() - b@.len() + 1,
            forall|j: int| 0 <= j < i ==> #[trigger] s@.subrange(j, j + t@.len()) != t@,
        decreases a@.len() - i,
    {
        let mut k: usize = 0;
        let mut same = true;
        while k < b.len()
            invariant
                a@ == s@,
                b@ == t@,
                i + b@.len() <= a@.len(),
                a@.len() <= usize::MAX,
                k <= b@.len(),
                same == (forall|m: int| 0 <= m < k ==> a@[i + m] == b@[m]),
            decreases b@.len() - k,
        {
            assert(i + k < a@.len());
            if a[i + k] != b[k] {
                same = false;
            }
            k = k + 1;
        }
        if same {
            assert(s@.subrange(i as int, i + t@.len()) =~= t@);
            return true;
        }
        assert(s@.subrange(i as int, i + t@.len()) != t@) by {
            let m = choose|m: int| 0 <= m < b@.len() && a@[i + m] != b@[m];
            assert(s@.subrange(i as int, i + t@.len())[m] == a@[i + m]);
        }
        i = i + 1;
    }
    false
}

/// Index of the first white space character of `s` at or after `from`, or `s.len()`.
pub open spec fn white_from(s: Seq<char>, from: int) -> int
    decreases s.len() - from,
{
    if from >= s.len() {
        s.len() as int
    } else if is_white_space(s[from]) {
        from
    } else {
        white_from(s, from + 1)
    }
}

proof fn lemma_white_from_bounds(s: Seq<char>, from: int)
    requires
        0 <= from <= s.len(),
    ensures
        from <= white_from(s, from) <= s.len(),
        forall|j: int| from <= j < white_from(s, from) ==> !is_white_space(s[j]),
        white_from(s, from) < s.len() ==> is_white_space(s[white_from(s, from)]),
    decreases s.len() - from,
{
    if from < s.len() && !is_white_space(s[from]) {
        lemma_white_from_bounds(s, from + 1);
    }
}

/// The first word of `s` (`str::split_whitespace().next()`): `None` when `s` is blank.
pub open spec fn first_word(s: Seq<char>) -> Option<Seq<char>> {
    let t = trim_start(s);
    if t.len() == 0 {
        None
    } else {
        Some(t.take(white_from(t, 0)))
    }
}

proof fn lemma_trim_start_shape(s: Seq<char>)
    ensures
        exists|k: int| 0 <= k <= s.len() && all_white(s.take(k)) && trim_start(s) == s.skip(k),
        trim_start(s).len() > 0 ==> !is_white_space(trim_start(s)[0]),
    decreases s.len(),
{
    if s.len() > 0 && is_white_space(s[0]) {
        lemma_trim_start_shape(s.drop_first());
        let k = choose|k: int| 0 <= k <= s.drop_first().len() && all_white(s.drop_first().take(k)) && trim_start(s.drop_first()) == s.drop_first().skip(k);
        assert(all_white(s.take(k + 1))) by {
            assert forall|i: int| 0 <= i < k + 1 implies is_white_space(#[trigger] s.take(k + 1)[i]) by {
                if i > 0 {
                    assert(s.take(k + 1)[i] == s.drop_first().take(k)[i - 1]);
                }
            }
        }
        assert(s.skip(k + 1) =~= s.drop_first().skip(k));
    } else {
        assert(s.take(0) =~= Seq::<char>::empty());
        assert(s.skip(0) =~= s);
    }
}

/// Computes [`first_word`].
pub fn first_word_of(s: &[char]) -> (r: Option<Vec<char>>)
    ensures
        match r {
            Some(w) => first_word(s@) == Some(w@),
            None => first_word(s@) is None,
        },
{
    let n = s.len();
    let mut a: usize = 0;
    proof {
        lemma_trim_start_shape(s@);
    }
    while a < n && is_whitespace(s[a])
        invariant
            a <= n,
            n == s@.len(),
            forall|j: int| 0 <= j < a ==> is_white_space(#[trigger] s@[j]),
        decreases n - a,
    {
        a = a + 1;
    }
    let ghost t = s@.skip(a as int);
    proof {
        let k = choose|k: int| 0 <= k <= s@.len() && all_white(s@.take(k)) && trim_start(s@) == s@.skip(k);
        assert(trim_start(s@) == t) by {
            // the white prefix of s ends exactly at `a`
            if k < a {
                assert(trim_start(s@).len() > 0 ==> !is_white_space(trim_start(s@)[0]));
                assert(s@.skip(k)[0] == s@[k]);
            } else if k > a {
                assert(s@.take(k)[a as int] == s@[a as int]);
            }
        }
    }
    if a == n {
        return None;
    }
    let mut b: usize = a;
    let mut w: Vec<char> = Vec::new();
    proof {
        lemma_white_from_bounds(t, 0);
    }
    while b < n && !is_whitespace(s[b])
        invariant
            a <= b <= n,
            n == s@.len(),
            t == s@.skip(a as int),
            w@ == s@.subrange(a as int, b as int),
            forall|j: int| a <= j < b ==> !is_white_space(#[trigger] s@[j]),
        decreases n - b,
    {
        w.push(s[b]);
        assert(s@.subrange(a as int, b + 1) =~= s@.subrange(a as int, b as int).push(s@[b as int]));
        b = b + 1;
    }
    proof {
        lemma_white_from_bounds(t, 0);
        let e = white_from(t, 0);
        if e < b - a {
            assert(t[e] == s@[a + e]);
        }
        if e > b - a {
            assert(t[b - a] == s@[b as int]);
        }
        assert(w@ =~= t.take(e));
    }
    Some(w)
}

/// The value of a string of decimal digits.
pub open spec fn digits_value(d: Seq<char>) -> nat
    decreases d.len(),
{
    if d.len() == 0 {
        0
    } else {
        digits_value(d.drop_last()) * 10 + ((d.last() as u32) - ('0' as u32)) as nat
    }
}

pub open spec fn is_digit(c: char) -> bool {
    '0' <= c && c <= '9'
}

/// Every character of `d` is a decimal digit.
pub open spec fn all_digits(d: Seq<char>) -> bool {
    forall|i: int| 0 <= i < d.len() ==> is_digit(#[trigger] d[i])
}

/// `s` without one leading `+`.
pub open spec fn unsigned_digits(s: Seq<char>) -> Seq<char> {
    if s.len() > 0 && s[0] == '+' {
        s.drop_first()
    } else {
        s
    }
}

/// What `str::parse::<u32>` gives: an optional `+`, then one or more decimal digits whose
/// value fits in a `u32`.
pub open spec fn parse_u32(s: Seq<char>) -> Option<u32> {
    let d = unsigned_digits(s);
    if d.len() == 0 || !all_digits(d) {
        None
    } else if digits_value(d) > u32::MAX {
        None
    } else {
        Some(digits_value(d) as u32)
    }
}

proof fn lemma_digits_value_grows(d: Seq<char>, k: int)
    requires
        0 <= k <= d.len(),
        forall|i: int| 0 <= i < d.len() ==> is_digit(#[trigger] d[i]),
    ensures
        digits_value(d.take(k)) <= digits_value(d),
    decreases d.len() - k,
{
    if k < d.len() {
        lemma_digits_value_grows(d, k + 1);
        assert(d.take(k + 1).drop_last() =~= d.take(k));
    } else {
        assert(d.take(k) =~= d);
    }
}

/// Computes [`parse_u32`].
pub fn parse_u32_of(s: &[char]) -> (r: Option<u32>)
    ensures
        r == parse_u32(s@),
{
    let start: usize = if s.len() > 0 && s[0] == '+' {
        1
    } else {
        0
    };
    let ghost d = if s@.len() > 0 && s@[0] == '+' {
        s@.drop_first()
    } else {
        s@
    };
    assert(d =~= s@.skip(start as int));
    if start >= s.len() {
        return None;
    }
    let mut i: usize = start;
    while i < s.len()
        invariant
            start <= i <= s@.len(),
            d == s@.skip(start as int),
            d == unsigned_digits(s@),
            forall|j: int| start <= j < i ==> is_digit(#[trigger] s@[j]),
        decreases s@.len() - i,
    {
        if !(s[i] >= '0' && s[i] <= '9') {
            assert(d[i - start] == s@[i as int]);
            assert(!is_digit(d[i - start]));
            assert(!all_digits(d));
            return None;
        }
        i = i + 1;
    }
    assert(forall|j: int| 0 <= j < d.len() ==> is_digit(#[trigger] d[j])) by {
        assert forall|j: int| 0 <= j < d.len() implies is_digit(#[trigger] d[j]) by {
            assert(d[j] == s@[start + j]);
        }
    }
    let mut v: u64 = 0;
    let mut k: usize = start;
    while k < s.len()
        invariant
            start <= k <= s@.len(),
            d == s@.skip(start as int),
            d == unsigned_digits(s@),
            forall|j: int| 0 <= j < d.len() ==> is_digit(#[trigger] d[j]),
            v == digits_value(d.take(k - start)),
            v <= u32::MAX,
        decreases s@.len() - k,
    {
        proof {
            assert(d[k - start] == s@[k as int]);
            assert(is_digit(d[k - start]));
        }
        let digit = (s[k] as u32 - '0' as u32) as u64;
        proof {
            assert(d.take(k - start + 1).drop_last() =~= d.take(k - start));
            assert(d.take(k - start + 1).last() == s@[k as int]);
            assert(is_digit(d[k - start]));
        }
        let nv = v * 10 + digit;
        if nv > 4294967295u64 {
            proof {
                lemma_digits_value_grows(d, k - start + 1);
            }
            return None;
        }
        v = nv;
        k = k + 1;
    }
    assert(d.take(k - start) =~= d);
    Some(v as u32)
}

/// The decimal digits of `n`, as `format!("{}", n)` writes them.
pub open spec fn decimal(n: nat) -> Seq<char>
    decreases n,
{
    if n < 10 {
        seq![(('0' as u32) + n) as char]
    } else {
        decimal(n / 10).push((('0' as u32) + (n % 10)) as char)
    }
}

/// Writes `n` in decimal.
pub fn decimal_of(n: u64) -> (r: String)
    ensures
        r@ == decimal(n as nat),
    decreases n,
{
    if n < 10 {
        let mut s = String::new();
        let c = char_of_digit(n as u32);
        push_char(&mut s, c);
        assert(s@ =~= decimal(n as nat));
        s
    } else {
        let mut s = decimal_of(n / 10);
        let c = char_of_digit((n % 10) as u32);
        push_char(&mut s, c);
        s
    }
}

fn char_of_digit(d: u32) -> (c: char)
    requires
        d < 10,
    ensures
        c == (('0' as u32) + d) as char,
{
    if d == 0 { '0' } else if d == 1 { '1' } else if d == 2 { '2' } else if d == 3 { '3' } else if d == 4 { '4' } else if d == 5 { '5' } else if d == 6 { '6' } else if d == 7 { '7' } else if d == 8 { '8' } else { '9' }
}

/// Whether `s` begins with `p`.
pub open spec fn has_prefix(s: Seq<char>, p: Seq<char>) -> bool {
    p.len() <= s.len() && s.take(p.len() as int) == p
}

/// Whether `s` ends with `p`.
pub open spec fn has_suffix(s: Seq<char>, p: Seq<char>) -> bool {
    p.len() <= s.len() && s.skip(s.len() - p.len()) == p
}

/// `str::starts_with` on character sequences.
pub fn starts_with(s: &[char], p: &[char]) -> (r: bool)
    ensures
        r == has_prefix(s@, p@),
{
    if p.len() > s.len() {
        return false;
    }
    let mut i: usize = 0;
    while i < p.len()
        invariant
            i <= p@.len() <= s@.len(),
            s@.take(i as int) == p@.take(i as int),
        decreases p@.len() - i,
    {
        if s[i] != p[i] {
            assert(s@.take(p@.len() as int)[i as int] != p@[i as int]);
            return false;
        }
        assert(s@.take(i + 1) =~= s@.take(i as int).push(s@[i as int]));
        assert(p@.take(i + 1) =~= p@.take(i as int).push(p@[i as int]));
        i = i + 1;
    }
    assert(p@.take(p@.len() as int) =~= p@);
    true
}

/// `str::ends_with` on character sequences.
pub fn ends_with(s: &[char], p: &[char]) -> (r: bool)
    ensures
        r == has_suffix(s@, p@),
{
    if p.len() > s.len() {
        return false;
    }
    let off = s.len() - p.len();
    let mut i: usize = 0;
    while i < p.len()
        invariant
            i <= p@.len() <= s@.len(),
            off == s.len() - p.len(),
            p.len() <= s.len(),
            forall|j: int| 0 <= j < i ==> s@[off + j] == p@[j],
        decreases p@.len() - i,
    {
        if s[off + i] != p[i] {
            assert(s@.skip(off as int)[i as int] != p@[i as int]);
            return false;
        }
        i = i + 1;
    }
    assert(s@.skip(off as int) =~= p@);
    true
}

/// Whether two character sequences are equal.
pub fn chars_eq(a: &[char], b: &[char]) -> (r: bool)
    ensures
        r == (a@ == b@),
{
    if a.len() != b.len() {
        return false;
    }
    let r = starts_with(a, b);
    assert(a@.take(b@.len() as int) =~= a@);
    r
}

/// Whether `c` occurs in `s`.
pub fn contains_char(s: &[char], c: char) -> (r: bool)
    ensures
        r == s@.contains(c),
{
    let mut i: usize = 0;
    while i < s.len()
        invariant
            i <= s@.len(),
            forall|j: int| 0 <= j < i ==> s@[j] != c,
        decreases s@.len() - i,
    {
        if s[i] == c {
            return true;
        }
        i = i + 1;
    }
    false
}

/// Copy of a character sequence.
pub fn copy_chars(s: &[char]) -> (r: Vec<char>)
    ensures
        r@ == s@,
{
    let mut r: Vec<char> = Vec::new();
    let mut i: usize = 0;
    while i < s.len()
        invariant
            i <= s@.len(),
            r@ == s@.take(i as int),
        decreases s@.len() - i,
    {
        r.push(s[i]);
        assert(s@.take(i + 1) =~= s@.take(i as int).push(s@[i as int]));
        i = i + 1;
    }
    assert(s@.take(s@.len() as int) =~= s@);
    r
}

/// `a` followed by `b`.
pub fn concat_chars(a: &[char], b: &[char]) -> (r: Vec<char>)
    ensures
        r@ == a@ + b@,
{
    let mut r = copy_chars(a);
    let mut i: usize = 0;
    while i < b.len()
        invariant
            i <= b@.len(),
            r@ == a@ + b@.take(i as int),
        decreases b@.len() - i,
    {
        r.push(b[i]);
        assert(a@ + b@.take(i + 1) =~= (a@ + b@.take(i as int)).push(b@[i as int]));
        i = i + 1;
    }
    assert(b@.take(b@.len() as int) =~= b@);
    r
}

/// The first `n` characters of `v` as a string.
fn prefix_string(v: &[char], n: usize) -> (r: String)
    requires
        n <= v@.len(),
    ensures
        r@ == v@.take(n as int),
{
    let mut r = String::new();
    let mut i: usize = 0;
    while i < n
        invariant
            i <= n,
            n <= v@.len(),
            r@ == v@.take(i as int),
        decreases n - i,
    {
        push_char(&mut r, v[i]);
        assert(v@.take(i as int).push(v@[i as int]) =~= v@.take(i + 1));
        i = i + 1;
    }
    r
}

/// `s` cut to `max` characters the selector's way: whole when it fits, else its first
/// `max - 2` characters and `..` (its first `max` when `max` is 2 or less).
pub open spec fn cut_with_dots(s: Seq<char>, max: nat) -> Seq<char> {
    if s.len() <= max {
        s
    } else if max > 2 {
        s.take(max - 2).push('.').push('.')
    } else {
        s.take(max as int)
    }
}

/// `s` cut to `max` characters with a trailing `..` (see [`cut_with_dots`]).
pub fn truncate_dots(s: &str, max: usize) -> (r: String)
    ensures
        r@ == cut_with_dots(s@, max as nat),
{
    let c = chars_of(s);
    if c.len() <= max {
        string_from_chars(c.as_slice())
    } else if max > 2 {
        let mut r = prefix_string(c.as_slice(), max - 2);
        push_char(&mut r, '.');
        push_char(&mut r, '.');
        r
    } else {
        prefix_string(c.as_slice(), max)
    }
}

/// `s` cut to `max` characters the main view's way: whole when it fits, else its first
/// `max - 1` characters (none when `max` is 0) and an ellipsis.
pub open spec fn cut_with_ellipsis(s: Seq<char>, max: nat) -> Seq<char> {
    if s.len() <= max {
        s
    } else {
        s.take(if max > 0 {
            max - 1
        } else {
            0
        }).push('\u{2026}')
    }
}

/// `s` cut to `max` characters with a trailing ellipsis (see [`cut_with_ellipsis`]).
pub fn truncate_ellipsis(s: &str, max: usize) -> (r: String)
    ensures
        r@ == cut_with_ellipsis(s@, max as nat),
{
    let c = chars_of(s);
    if c.len() <= max {
        string_from_chars(c.as_slice())
    } else {
        let keep = if max > 0 {
            max - 1
        } else {
            0
        };
        let mut r = prefix_string(c.as_slice(), keep);
        push_char(&mut r, '\u{2026}');
        r
    }
}

/// How a search box counts its matches: "no matches", "1 match", or "N matches".
pub open spec fn match_count_text(n: nat) -> Seq<char> {
    if n == 0 {
        "no matches"@
    } else if n == 1 {
        "1 match"@
    } else {
        decimal(n) + " matches"@
    }
}

/// The count of matches as a search box shows it (see [`match_count_text`]).
pub fn match_count_hint(n: usize) -> (r: String)
    ensures
        r@ == match_count_text(n as nat),
{
    if n == 0 {
        "no matches".to_string()
    } else if n == 1 {
        "1 match".to_string()
    } else {
        let d = decimal_of(n as u64);
        concat(d.as_str(), " matches")
    }
}

} // verus!
