//! Fuzzy matching engine with character skipping and scoring.
use vstd::prelude::*;

use crate::text::{chars_of, lowercase_of, to_lowercase};

verus! {

/// The shortest candidate length (in characters) at which a score can overflow an `i32`:
/// a match scores at most 18 per matched character, less 3, and 18 × 119,304,648 − 3
/// exceeds `i32::MAX` (a candidate of separators matched whole reaches it); every shorter
/// candidate scores within range.
pub const MAX_CANDIDATE_LEN: usize = 119_304_648;

/// One candidate that matched the query.
#[derive(Debug, Clone)]
pub struct FuzzyMatch {
    pub index: usize,
    pub score: i32,
    /// Character positions in the candidate that matched the query.
    pub positions: Vec<usize>,
}

impl View for FuzzyMatch {
    type V = (usize, i32, Seq<usize>);

    open spec fn view(&self) -> (usize, i32, Seq<usize>) {
        (self.index, self.score, self.positions@)
    }
}

// ------------------------------------------------------------------
// Greedy left-to-right matching
// ------------------------------------------------------------------

/// First position `>= from` where `c` holds `ch`.
pub open spec fn first_from(c: Seq<char>, ch: char, from: int) -> Option<int>
    decreases c.len() - from,
{
    if from < 0 || from >= c.len() {
        None
    } else if c[from] == ch {
        Some(from)
    } else {
        first_from(c, ch, from + 1)
    }
}

/// Positions where `q` matches `c` when every query character takes the first
/// occurrence after the previous one, starting at `from`; `None` when some query
/// character has no such occurrence.
pub open spec fn greedy_from(q: Seq<char>, c: Seq<char>, from: int) -> Option<Seq<int>>
    decreases q.len(),
{
    if q.len() == 0 {
        Some(Seq::empty())
    } else {
        match first_from(c, q[0], from) {
            None => None,
            Some(p) => match greedy_from(q.drop_first(), c, p + 1) {
                None => None,
                Some(rest) => Some(seq![p] + rest),
            },
        }
    }
}

/// The greedy match of the whole query.
pub open spec fn greedy(q: Seq<char>, c: Seq<char>) -> Option<Seq<int>> {
    greedy_from(q, c, 0)
}

/// `ps` is an embedding of `q` into `c` using positions `>= from`.
pub open spec fn is_embedding_from(q: Seq<char>, c: Seq<char>, ps: Seq<int>, from: int) -> bool {
    &&& ps.len() == q.len()
    &&& forall|i: int| 0 <= i < ps.len() ==> from <= #[trigger] ps[i] < c.len()
    &&& forall|i: int| 0 <= i < ps.len() ==> c[#[trigger] ps[i]] == q[i]
    &&& forall|i: int, j: int| 0 <= i < j < ps.len() ==> #[trigger] ps[i] < #[trigger] ps[j]
}

/// `q` occurs in `c` as a (not necessarily contiguous) subsequence.
pub open spec fn is_subsequence(q: Seq<char>, c: Seq<char>) -> bool {
    exists|ps: Seq<int>| is_embedding_from(q, c, ps, 0)
}

/// Separator characters after which a word starts.
pub open spec fn is_separator(ch: char) -> bool {
    ch == '/' || ch == '.' || ch == '_' || ch == '-' || ch == ' '
}

/// Position `pos` of `c` starts a word.
pub open spec fn at_word_boundary(c: Seq<char>, pos: int) -> bool {
    pos == 0 || is_separator(c[pos - 1])
}

/// Bonus points earned by the first `n` matched positions.
pub open spec fn score_upto(c: Seq<char>, ps: Seq<int>, n: int) -> int
    decreases n,
{
    if n <= 0 {
        0
    } else {
        score_upto(c, ps, n - 1) + 10 + (if at_word_boundary(c, ps[n - 1]) {
            5int
        } else {
            0int
        }) + (if n - 1 > 0 && ps[n - 1] == ps[n - 2] + 1 {
            3int
        } else {
            0int
        })
    }
}

/// Score of a match: 10 per matched character, +5 at a word boundary, +3 when
/// directly after the previous match, minus the position of the first match.
pub open spec fn match_score(c: Seq<char>, ps: Seq<int>) -> int {
    score_upto(c, ps, ps.len() as int) - (if ps.len() > 0 {
        ps[0]
    } else {
        0
    })
}

proof fn lemma_score_bounds(c: Seq<char>, ps: Seq<int>, n: int)
    requires
        0 <= n <= ps.len(),
    ensures
        10 * n <= score_upto(c, ps, n) <= 18 * n,
    decreases n,
{
    if n > 0 {
        lemma_score_bounds(c, ps, n - 1);
    }
}

proof fn lemma_first_from_props(c: Seq<char>, ch: char, from: int)
    requires
        0 <= from,
    ensures
        first_from(c, ch, from) matches Some(p) ==> from <= p < c.len() && c[p] == ch && forall|
            j: int,
        |
            from <= j < p ==> c[j] != ch,
        first_from(c, ch, from) is None ==> forall|j: int| from <= j < c.len() ==> c[j] != ch,
    decreases c.len() - from,
{
    if from < c.len() && c[from] != ch {
        lemma_first_from_props(c, ch, from + 1);
    }
}

/// The greedy match, when it exists, is an embedding.
proof fn lemma_greedy_is_embedding(q: Seq<char>, c: Seq<char>, from: int)
    requires
        0 <= from,
    ensures
        greedy_from(q, c, from) matches Some(ps) ==> is_embedding_from(q, c, ps, from),
    decreases q.len(),
{
    if q.len() > 0 {
        lemma_first_from_props(c, q[0], from);
        if let Some(p) = first_from(c, q[0], from) {
            lemma_greedy_is_embedding(q.drop_first(), c, p + 1);
            if let Some(rest) = greedy_from(q.drop_first(), c, p + 1) {
                let ps = seq![p] + rest;
                assert forall|i: int| 0 <= i < ps.len() implies from <= #[trigger] ps[i] < c.len() by {
                    if i > 0 {
                        assert(ps[i] == rest[i - 1]);
                    }
                }
                assert forall|i: int| 0 <= i < ps.len() implies c[#[trigger] ps[i]] == q[i] by {
                    if i > 0 {
                        assert(ps[i] == rest[i - 1]);
                        assert(q.drop_first()[i - 1] == q[i]);
                    }
                }
                assert forall|i: int, j: int| 0 <= i < j < ps.len() implies #[trigger] ps[i]
                    < #[trigger] ps[j] by {
                    assert(ps[j] == rest[j - 1]);
                    if i > 0 {
                        assert(ps[i] == rest[i - 1]);
                    }
                }
            }
        }
    }
}

/// When any embedding starting at `from` exists, the greedy match exists too.
proof fn lemma_embedding_gives_greedy(q: Seq<char>, c: Seq<char>, ps: Seq<int>, from: int)
    requires
        0 <= from,
        is_embedding_from(q, c, ps, from),
    ensures
        greedy_from(q, c, from) is Some,
    decreases q.len(),
{
    if q.len() > 0 {
        lemma_first_from_props(c, q[0], from);
        assert(c[ps[0]] == q[0]);
        assert(from <= ps[0] < c.len());
        let p = first_from(c, q[0], from)->0;
        assert(p <= ps[0]);
        let rest = ps.drop_first();
        assert forall|i: int| 0 <= i < rest.len() implies p + 1 <= #[trigger] rest[i] < c.len() by {
            assert(rest[i] == ps[i + 1]);
            assert(ps[0] < ps[i + 1]);
        }
        assert forall|i: int| 0 <= i < rest.len() implies c[#[trigger] rest[i]] == q.drop_first()[i] by {
            assert(rest[i] == ps[i + 1]);
        }
        assert forall|i: int, j: int| 0 <= i < j < rest.len() implies #[trigger] rest[i]
            < #[trigger] rest[j] by {
            assert(rest[i] == ps[i + 1]);
            assert(rest[j] == ps[j + 1]);
        }
        lemma_embedding_gives_greedy(q.drop_first(), c, rest, p + 1);
    }
}

/// Greedy matching finds a match exactly when the query is a subsequence of the candidate.
pub proof fn lemma_greedy_complete(q: Seq<char>, c: Seq<char>)
    ensures
        greedy(q, c) is Some <==> is_subsequence(q, c),
        greedy(q, c) matches Some(ps) ==> is_embedding_from(q, c, ps, 0),
{
    lemma_greedy_is_embedding(q, c, 0);
    if greedy(q, c) is Some {
        assert(is_embedding_from(q, c, greedy(q, c)->0, 0));
    }
    if is_subsequence(q, c) {
        let ps = choose|ps: Seq<int>| is_embedding_from(q, c, ps, 0);
        lemma_embedding_gives_greedy(q, c, ps, 0);
    }
}

/// Whether position `pos` of `candidate` starts a word: it is the first position, or it
/// follows one of `/ . _ - space`.
pub fn is_word_boundary(candidate: &[char], pos: usize) -> (r: bool)
    requires
        pos <= candidate@.len(),
        pos > 0 ==> pos - 1 < candidate@.len(),
    ensures
        r == at_word_boundary(candidate@, pos as int),
{
    if pos == 0 {
        return true;
    }
    let prev = candidate[pos - 1];
    prev == '/' || prev == '.' || prev == '_' || prev == '-' || prev == ' '
}

/// Integer positions of a match.
pub open spec fn as_ints(ps: Seq<usize>) -> Seq<int> {
    ps.map_values(|p: usize| p as int)
}

proof fn lemma_score_grows(c: Seq<char>, ps: Seq<int>, i: int, n: int)
    requires
        0 <= i <= n <= ps.len(),
    ensures
        score_upto(c, ps, i) + 10 * (n - i) <= score_upto(c, ps, n),
    decreases n - i,
{
    if i < n {
        lemma_score_grows(c, ps, i, n - 1);
    }
}

/// Score of a match at `positions` in `candidate` (see [`match_score`]); the first position
/// is subtracted as an `i32`. Every position may be at most the candidate's length (the
/// character before it is read), and the score must not overflow.
pub fn compute_score(query: &[char], candidate: &[char], positions: &[usize]) -> (r: i32)
    requires
        forall|i: int| 0 <= i < positions@.len() ==> #[trigger] positions@[i] <= candidate@.len(),
        score_upto(candidate@, as_ints(positions@), positions@.len() as int) <= i32::MAX,
        positions@.len() > 0 ==> i32::MIN <= score_upto(candidate@, as_ints(positions@), positions@.len() as int)
            - (positions@[0] as i32) <= i32::MAX,
    ensures
        r == score_upto(candidate@, as_ints(positions@), positions@.len() as int) - (if positions@.len() > 0 {
            (positions@[0] as i32) as int
        } else {
            0
        }),
        positions@.len() > 0 && positions@[0] <= i32::MAX ==> r == match_score(candidate@, as_ints(positions@)),
        positions@.len() == 0 ==> r == match_score(candidate@, as_ints(positions@)),
{
    let ghost ps = as_ints(positions@);
    let ghost n = positions@.len() as int;
    let mut score: i32 = 0;
    let mut i: usize = 0;
    while i < positions.len()
        invariant
            i <= positions@.len(),
            n == positions@.len(),
            ps == as_ints(positions@),
            forall|k: int| 0 <= k < positions@.len() ==> #[trigger] positions@[k] <= candidate@.len(),
            score_upto(candidate@, ps, n) <= i32::MAX,
            score == score_upto(candidate@, ps, i as int),
        decreases positions@.len() - i,
    {
        proof {
            lemma_score_grows(candidate@, ps, i + 1, n);
            lemma_score_bounds(candidate@, ps, i as int);
        }
        let pos = positions[i];
        assert(ps[i as int] == pos);
        score = score + 10;
        if is_word_boundary(candidate, pos) {
            score = score + 5;
        }
        if i > 0 && pos > 0 && pos - 1 == positions[i - 1] {
            assert(ps[i - 1] == positions@[i - 1]);
            score = score + 3;
        }
        i = i + 1;
    }
    if positions.len() > 0 {
        let first = positions[0];
        score = score - first as i32;
    }
    score
}

/// Matches all query characters in order within `candidate`, each at its first occurrence
/// after the previous one. Returns the score and the matched positions, or `None` when the
/// query is not a subsequence of the candidate. (The yes-or-no test alone is
/// [`fuzzy_match`].)
pub fn score_match(query: &[char], candidate: &[char]) -> (r: Option<(i32, Vec<usize>)>)
    requires
        candidate@.len() < MAX_CANDIDATE_LEN,
    ensures
        r is Some <==> greedy(query@, candidate@) is Some,
        r matches Some(m) ==> as_ints(m.1@) == greedy(query@, candidate@)->0 && m.0
            == match_score(candidate@, greedy(query@, candidate@)->0),
{
    if query.len() == 0 {
        let v: Vec<usize> = Vec::new();
        assert(as_ints(v@) =~= Seq::<int>::empty());
        return Some((0, v));
    }
    if candidate.len() < query.len() {
        proof {
            lemma_greedy_is_embedding(query@, candidate@, 0);
            if let Some(ps) = greedy(query@, candidate@) {
                // an embedding uses query.len() distinct increasing positions below candidate.len()
                lemma_increasing_bound(ps, candidate@.len() as int);
            }
        }
        return None;
    }
    let mut positions: Vec<usize> = Vec::new();
    let mut cidx: usize = 0;
    let mut k: usize = 0;
    proof {
        assert(query@.skip(0) =~= query@);
        if let Some(rest) = greedy(query@, candidate@) {
            assert(as_ints(positions@) + rest =~= rest);
        }
    }
    while k < query.len()
        invariant
            k <= query@.len(),
            cidx <= candidate@.len(),
            positions@.len() == k,
            forall|j: int| 0 <= j < k ==> #[trigger] positions@[j] < cidx,
            match greedy_from(query@.skip(k as int), candidate@, cidx as int) {
                Some(rest) => greedy(query@, candidate@) == Some(as_ints(positions@) + rest),
                None => greedy(query@, candidate@) is None,
            },
        decreases query@.len() - k,
    {
        let qc = query[k];
        let ghost start = cidx;
        let mut found = false;
        while cidx < candidate.len()
            invariant_except_break
                start <= cidx <= candidate@.len(),
                !found,
                first_from(candidate@, qc, start as int) == first_from(
                    candidate@,
                    qc,
                    cidx as int,
                ),
            ensures
                start <= cidx <= candidate@.len(),
                found ==> cidx > start && candidate@[cidx - 1] == qc && first_from(
                    candidate@,
                    qc,
                    start as int,
                ) == Some((cidx - 1) as int),
                !found ==> first_from(candidate@, qc, start as int) is None,
            decreases candidate@.len() - cidx,
        {
            if candidate[cidx] == qc {
                found = true;
                cidx = cidx + 1;
                break;
            }
            cidx = cidx + 1;
        }
        let ghost q_rest = query@.skip(k as int);
        assert(q_rest[0] == qc);
        assert(q_rest.drop_first() =~= query@.skip(k + 1));
        if !found {
            return None;
        }
        proof {
            assert(as_ints(positions@.push((cidx - 1) as usize)) =~= as_ints(positions@).push(
                cidx - 1,
            ));
            match greedy_from(query@.skip(k + 1), candidate@, cidx as int) {
                Some(rest2) => {
                    assert(as_ints(positions@) + (seq![cidx - 1] + rest2) =~= as_ints(
                        positions@,
                    ).push(cidx - 1) + rest2);
                },
                None => {},
            }
        }
        positions.push(cidx - 1);
        k = k + 1;
    }
    proof {
        assert(query@.skip(k as int) =~= Seq::<char>::empty());
        assert(as_ints(positions@) + Seq::<int>::empty() =~= as_ints(positions@));
    }
    proof {
        lemma_score_bounds(candidate@, as_ints(positions@), positions@.len() as int);
    }
    let score = compute_score(query, candidate, positions.as_slice());
    Some((score, positions))
}

proof fn lemma_increasing_bound(ps: Seq<int>, n: int)
    requires
        0 <= n,
        forall|i: int| 0 <= i < ps.len() ==> 0 <= #[trigger] ps[i] < n,
        forall|i: int, j: int| 0 <= i < j < ps.len() ==> #[trigger] ps[i] < #[trigger] ps[j],
    ensures
        ps.len() <= n,
    decreases ps.len(),
{
    if ps.len() > 0 {
        let t = ps.drop_last();
        assert forall|i: int| 0 <= i < t.len() implies 0 <= #[trigger] t[i] < ps.last() by {
            assert(t[i] == ps[i]);
        }
        assert forall|i: int, j: int| 0 <= i < j < t.len() implies #[trigger] t[i]
            < #[trigger] t[j] by {
            assert(t[i] == ps[i]);
            assert(t[j] == ps[j]);
        }
        assert(ps[ps.len() - 1] < n);
        lemma_increasing_bound(t, ps.last());
    }
}

// ------------------------------------------------------------------
// Engine
// ------------------------------------------------------------------

/// `a` is ranked before `b`: higher score first, lower index first among equal scores.
pub open spec fn ranked_before(a: (usize, i32, Seq<usize>), b: (usize, i32, Seq<usize>)) -> bool {
    a.1 > b.1 || (a.1 == b.1 && a.0 < b.0)
}

/// `ms` is ordered by [`ranked_before`].
pub open spec fn is_ranked(ms: Seq<FuzzyMatch>) -> bool {
    forall|a: int, b: int| 0 <= a < b < ms.len() ==> ranked_before(#[trigger] ms[a]@, #[trigger] ms[b]@)
}

/// `m` is the match of query `q` against candidate `c` at index `i`.
pub open spec fn is_match_of(m: (usize, i32, Seq<usize>), i: int, q: Seq<char>, c: Seq<char>) -> bool {
    &&& m.0 == i
    &&& greedy(q, c) is Some
    &&& as_ints(m.2) == greedy(q, c)->0
    &&& m.1 == match_score(c, greedy(q, c)->0)
}

/// What `filter` leaves in the engine for query `q` and (lowercased) candidates `cs`:
/// exactly one entry per candidate that `q` matches, ranked.
pub open spec fn filter_result(q: Seq<char>, cs: Seq<Seq<char>>, ms: Seq<FuzzyMatch>) -> bool {
    &&& is_ranked(ms)
    &&& forall|k: int| 0 <= k < ms.len() ==> {
        &&& (#[trigger] ms[k]).index < cs.len()
        &&& is_match_of(ms[k]@, ms[k].index as int, q, cs[ms[k].index as int])
    }
    &&& forall|i: int|
        0 <= i < cs.len() && (#[trigger] greedy(q, cs[i])) is Some ==> exists|k: int|
            0 <= k < ms.len() && (#[trigger] ms[k]).index == i
}

/// The lowercased candidates.
pub open spec fn lowered(items: Seq<&str>) -> Seq<Seq<char>> {
    items.map_values(|s: &str| lowercase_of(s@))
}

/// All candidates, unscored, in their given order (the result for an empty query).
pub open spec fn all_unscored(n: int, ms: Seq<FuzzyMatch>) -> bool {
    &&& ms.len() == n
    &&& forall|k: int| 0 <= k < n ==> (#[trigger] ms[k])@ == (k as usize, 0i32, Seq::<usize>::empty())
}

/// Fuzzy search state: the query typed so far, the ranked matches of the last
/// [`FuzzyEngine::filter`], and a cursor into them.
#[derive(Debug, Clone)]
pub struct FuzzyEngine {
    query: String,
    matches: Vec<FuzzyMatch>,
    cursor: usize,
}

/// A call on a search engine, with what it was given.
pub ghost enum EngineCall {
    PushChar(char),
    Backspace,
    /// A filter over any candidates.
    Filter,
    MoveUp,
    MoveDown,
    Clear,
}

/// The query after `call`: a typed character is appended, a backspace drops the last
/// character (if any), a clear empties it, and the other calls leave it.
pub open spec fn query_step(q: Seq<char>, call: EngineCall) -> Seq<char> {
    match call {
        EngineCall::PushChar(c) => q.push(c),
        EngineCall::Backspace => if q.len() > 0 {
            q.drop_last()
        } else {
            q
        },
        EngineCall::Clear => Seq::empty(),
        _ => q,
    }
}

/// The query after `calls` in turn, starting from `q` (see [`query_step`]).
pub open spec fn query_after(q: Seq<char>, calls: Seq<EngineCall>) -> Seq<char>
    decreases calls.len(),
{
    if calls.len() == 0 {
        q
    } else {
        query_step(query_after(q, calls.drop_last()), calls.last())
    }
}

/// `b` is the engine `a` after `call`, as far as the query and the cursor's place go: the
/// query changes as [`query_step`] says, and a well-formed engine stays well formed.
pub open spec fn engine_call(a: FuzzyEngine, call: EngineCall, b: FuzzyEngine) -> bool {
    &&& b.query_spec() == query_step(a.query_spec(), call)
    &&& a.wf() ==> b.wf()
}

/// Over any sequence of calls from a well-formed engine (as [`FuzzyEngine::new`] makes
/// one): the query is the one the calls typed, and the cursor stays on a match, or at 0
/// when there is none.
pub proof fn lemma_engine_calls(states: Seq<FuzzyEngine>, calls: Seq<EngineCall>)
    requires
        states.len() == calls.len() + 1,
        states[0].wf(),
        forall|i: int| 0 <= i < calls.len() ==> #[trigger] engine_call(states[i], calls[i], states[i + 1]),
    ensures
        states.last().query_spec() == query_after(states[0].query_spec(), calls),
        states.last().wf(),
    decreases calls.len(),
{
    if calls.len() > 0 {
        let k = calls.len() - 1;
        assert forall|i: int| 0 <= i < calls.drop_last().len() implies #[trigger] engine_call(
            states.drop_last()[i],
            calls.drop_last()[i],
            states.drop_last()[i + 1],
        ) by {
            assert(engine_call(states[i], calls[i], states[i + 1]));
        }
        lemma_engine_calls(states.drop_last(), calls.drop_last());
        assert(states.drop_last().last() == states[k]);
        assert(engine_call(states[k], calls[k], states[k + 1]));
    }
}

impl Default for FuzzyEngine {
    /// The same engine as [`FuzzyEngine::new`]: no query, no matches, cursor at 0.
    fn default() -> (r: Self)
        ensures
            r.wf(),
            r.query_spec() == Seq::<char>::empty(),
            r.matches_spec() == Seq::<FuzzyMatch>::empty(),
            r.cursor_spec() == 0,
    {
        FuzzyEngine::new()
    }
}

impl FuzzyEngine {
    /// The query typed so far.
    pub closed spec fn query_spec(&self) -> Seq<char> {
        self.query@
    }

    /// The matches of the last filter.
    pub closed spec fn matches_spec(&self) -> Seq<FuzzyMatch> {
        self.matches@
    }

    /// The cursor into the matches.
    pub closed spec fn cursor_spec(&self) -> nat {
        self.cursor as nat
    }

    /// The cursor points at a match, or is 0 when there is none.
    pub open spec fn wf(&self) -> bool {
        if self.matches_spec().len() == 0 {
            self.cursor_spec() == 0
        } else {
            self.cursor_spec() < self.matches_spec().len()
        }
    }

    pub fn new() -> (r: Self)
        ensures
            r.wf(),
            r.query_spec() == Seq::<char>::empty(),
            r.matches_spec() == Seq::<FuzzyMatch>::empty(),
            r.cursor_spec() == 0,
    {
        FuzzyEngine { query: String::new(), matches: Vec::new(), cursor: 0 }
    }

    pub fn query(&self) -> (r: &str)
        ensures
            r@ == self.query_spec(),
    {
        self.query.as_str()
    }

    /// A query has been typed.
    pub fn is_active(&self) -> (r: bool)
        ensures
            r == (self.query_spec().len() > 0),
    {
        broadcast use vstd::string::group_string_axioms;

        !self.query.as_str().is_empty()
    }

    /// Appends a character to the query; the matches stay until the next filter.
    pub fn push_char(&mut self, c: char)
        ensures
            final(self).query_spec() == old(self).query_spec().push(c),
            final(self).matches_spec() == old(self).matches_spec(),
            final(self).cursor_spec() == old(self).cursor_spec(),
            engine_call(*old(self), EngineCall::PushChar(c), *final(self)),
    {
        crate::text::push_char(&mut self.query, c);
    }

    /// Removes the last character of the query, if any.
    pub fn backspace(&mut self)
        ensures
            final(self).query_spec() == (if old(self).query_spec().len() > 0 {
                old(self).query_spec().drop_last()
            } else {
                old(self).query_spec()
            }),
            final(self).matches_spec() == old(self).matches_spec(),
            final(self).cursor_spec() == old(self).cursor_spec(),
            engine_call(*old(self), EngineCall::Backspace, *final(self)),
    {
        crate::text::pop_char(&mut self.query);
    }

    /// Clears query, matches and cursor.
    pub fn clear(&mut self)
        ensures
            final(self).wf(),
            final(self).query_spec() == Seq::<char>::empty(),
            final(self).matches_spec() == Seq::<FuzzyMatch>::empty(),
            final(self).cursor_spec() == 0,
            engine_call(*old(self), EngineCall::Clear, *final(self)),
    {
        self.query = String::new();
        self.matches = Vec::new();
        self.cursor = 0;
    }

    /// Moves the cursor up one match, stopping at the first.
    pub fn move_up(&mut self)
        ensures
            old(self).wf() ==> final(self).wf(),
            final(self).query_spec() == old(self).query_spec(),
            final(self).matches_spec() == old(self).matches_spec(),
            final(self).cursor_spec() == (if old(self).cursor_spec() > 0 {
                old(self).cursor_spec() - 1
            } else {
                0
            }),
            engine_call(*old(self), EngineCall::MoveUp, *final(self)),
    {
        if self.cursor > 0 {
            self.cursor = self.cursor - 1;
        }
    }

    /// Moves the cursor down one match, stopping at the last.
    pub fn move_down(&mut self)
        ensures
            old(self).wf() ==> final(self).wf(),
            final(self).query_spec() == old(self).query_spec(),
            final(self).matches_spec() == old(self).matches_spec(),
            final(self).cursor_spec() == (if old(self).cursor_spec() + 1 < old(
                self,
            ).matches_spec().len() {
                old(self).cursor_spec() + 1
            } else {
                old(self).cursor_spec()
            }),
            engine_call(*old(self), EngineCall::MoveDown, *final(self)),
    {
        if self.matches.len() > 0 && self.cursor < self.matches.len() - 1 {
            self.cursor = self.cursor + 1;
        }
    }

    pub fn matches(&self) -> (r: &[FuzzyMatch])
        ensures
            r@ == self.matches_spec(),
    {
        self.matches.as_slice()
    }

    pub fn cursor(&self) -> (r: usize)
        ensures
            r == self.cursor_spec(),
    {
        self.cursor
    }

    pub fn match_count(&self) -> (r: usize)
        ensures
            r == self.matches_spec().len(),
    {
        self.matches.len()
    }

    /// The candidate index of the match under the cursor.
    pub fn selected_index(&self) -> (r: Option<usize>)
        ensures
            r == (if self.cursor_spec() < self.matches_spec().len() {
                Some(self.matches_spec()[self.cursor_spec() as int].index)
            } else {
                None::<usize>
            }),
    {
        if self.cursor < self.matches.len() {
            Some(self.matches[self.cursor].index)
        } else {
            None
        }
    }

    /// Filters `items` by the lowercased query, ranking the matches by score
    /// (highest first; ties keep the given order). An empty query keeps every
    /// item, unscored, and resets the cursor; otherwise the cursor is clamped to the
    /// new matches.
    pub fn filter(&mut self, items: &[&str])
        requires
            forall|i: int|
                0 <= i < items@.len() ==> (#[trigger] lowercase_of(items@[i]@)).len()
                    < MAX_CANDIDATE_LEN,
        ensures
            final(self).wf(),
            final(self).query_spec() == old(self).query_spec(),
            lowercase_of(old(self).query_spec()).len() == 0 ==> all_unscored(
                items@.len() as int,
                final(self).matches_spec(),
            ) && final(self).cursor_spec() == 0,
            lowercase_of(old(self).query_spec()).len() > 0 ==> {
                &&& filter_result(
                    lowercase_of(old(self).query_spec()),
                    lowered(items@),
                    final(self).matches_spec(),
                )
                &&& final(self).cursor_spec() == if final(self).matches_spec().len() == 0 {
                    0
                } else if old(self).cursor_spec() >= final(self).matches_spec().len() {
                    (final(self).matches_spec().len() - 1) as nat
                } else {
                    old(self).cursor_spec()
                }
            },
            engine_call(*old(self), EngineCall::Filter, *final(self)),
    {
        let lower = to_lowercase(self.query.as_str());
        let q = chars_of(lower.as_str());
        if q.len() == 0 {
            let mut all: Vec<FuzzyMatch> = Vec::new();
            let mut i: usize = 0;
            while i < items.len()
                invariant
                    i <= items@.len(),
                    all@.len() == i,
                    forall|k: int| 0 <= k < i ==> (#[trigger] all@[k])@ == (
                        k as usize,
                        0i32,
                        Seq::<usize>::empty(),
                    ),
                decreases items@.len() - i,
            {
                all.push(FuzzyMatch { index: i, score: 0, positions: Vec::new() });
                i = i + 1;
            }
            self.matches = all;
            self.cursor = 0;
            return ;
        }
        let ghost qs = q@;
        let ghost cs = lowered(items@);
        let mut results: Vec<FuzzyMatch> = Vec::new();
        let mut i: usize = 0;
        while i < items.len()
            invariant
                i <= items@.len(),
                qs == q@,
                cs == lowered(items@),
                cs.len() == items@.len(),
                forall|j: int| 0 <= j < items@.len() ==> (#[trigger] lowercase_of(items@[j]@)).len()
                    < MAX_CANDIDATE_LEN,
                is_ranked(results@),
                forall|k: int| 0 <= k < results@.len() ==> {
                    &&& (#[trigger] results@[k]).index < i
                    &&& is_match_of(
                        results@[k]@,
                        results@[k].index as int,
                        qs,
                        cs[results@[k].index as int],
                    )
                },
                forall|j: int|
                    0 <= j < i && (#[trigger] greedy(qs, cs[j])) is Some ==> exists|k: int|
                        0 <= k < results@.len() && (#[trigger] results@[k]).index == j,
            decreases items@.len() - i,
        {
            let lc = to_lowercase(items[i]);
            let cand = chars_of(lc.as_str());
            assert(cand@ == cs[i as int]);
            let r = score_match(q.as_slice(), cand.as_slice());
            match r {
                None => {
                    assert forall|j: int|
                        0 <= j < i + 1 && (#[trigger] greedy(qs, cs[j])) is Some implies exists|
                            k: int,
                        |
                            0 <= k < results@.len() && (#[trigger] results@[k]).index == j by {
                        assert(j != i);
                    }
                },
                Some(pair) => {
                    let (score, positions) = pair;
                    let m = FuzzyMatch { index: i, score, positions };
                    // insertion point: after every entry scoring at least as high
                    let mut p: usize = 0;
                    while p < results.len() && results[p].score >= score
                        invariant
                            p <= results@.len(),
                            forall|k: int| 0 <= k < p ==> (#[trigger] results@[k]).score >= score,
                        decreases results@.len() - p,
                    {
                        p = p + 1;
                    }
                    let ghost old_results = results@;
                    proof {
                        // entries after p score below the new entry
                        assert forall|k: int| p <= k < old_results.len() implies (
                        #[trigger] old_results[k]).score < score by {
                            if k > p {
                                assert(ranked_before(old_results[p as int]@, old_results[k]@));
                            }
                        }
                    }
                    results.insert(p, m);
                    proof {
                        let nr = results@;
                        assert(nr == old_results.insert(p as int, m));
                        assert forall|a: int, b: int| 0 <= a < b < nr.len() implies ranked_before(
                            #[trigger] nr[a]@,
                            #[trigger] nr[b]@,
                        ) by {
                            if a < p && b < p {
                                assert(nr[a] == old_results[a] && nr[b] == old_results[b]);
                            } else if a < p && b == p {
                                assert(nr[a] == old_results[a]);
                            } else if a < p {
                                assert(nr[a] == old_results[a] && nr[b] == old_results[b - 1]);
                            } else if a == p {
                                assert(nr[b] == old_results[b - 1]);
                            } else {
                                assert(nr[a] == old_results[a - 1] && nr[b] == old_results[b - 1]);
                            }
                        }
                        assert forall|k: int| 0 <= k < nr.len() implies {
                            &&& (#[trigger] nr[k]).index < i + 1
                            &&& is_match_of(nr[k]@, nr[k].index as int, qs, cs[nr[k].index as int])
                        } by {
                            if k < p {
                                assert(nr[k] == old_results[k]);
                            } else if k > p {
                                assert(nr[k] == old_results[k - 1]);
                            }
                        }
                        assert forall|j: int|
                            0 <= j < i + 1 && (#[trigger] greedy(qs, cs[j])) is Some implies exists|
                                k: int,
                            |
                                0 <= k < nr.len() && (#[trigger] nr[k]).index == j by {
                            if j == i {
                                assert(nr[p as int].index == j);
                            } else {
                                let k0 = choose|k: int|
                                    0 <= k < old_results.len() && (#[trigger] old_results[k]).index
                                        == j;
                                if k0 < p {
                                    assert(nr[k0] == old_results[k0]);
                                } else {
                                    assert(nr[k0 + 1] == old_results[k0]);
                                }
                            }
                        }
                    }
                },
            }
            i = i + 1;
        }
        self.matches = results;
        if self.cursor >= self.matches.len() && self.matches.len() > 0 {
            self.cursor = self.matches.len() - 1;
        } else if self.matches.len() == 0 {
            self.cursor = 0;
        }
    }

    /// [`FuzzyEngine::filter`] when every lowercased candidate is short enough for its
    /// score to fit an `i32`; returns whether it filtered (the engine is left unchanged
    /// otherwise).
    pub fn filter_checked(&mut self, items: &[&str]) -> (ok: bool)
        ensures
            ok == (forall|i: int|
                0 <= i < items@.len() ==> (#[trigger] lowercase_of(items@[i]@)).len()
                    < MAX_CANDIDATE_LEN),
            !ok ==> *final(self) == *old(self),
            ok ==> final(self).wf() && final(self).query_spec() == old(self).query_spec(),
            ok && lowercase_of(old(self).query_spec()).len() == 0 ==> all_unscored(
                items@.len() as int,
                final(self).matches_spec(),
            ),
            ok && lowercase_of(old(self).query_spec()).len() > 0 ==> filter_result(
                lowercase_of(old(self).query_spec()),
                lowered(items@),
                final(self).matches_spec(),
            ),
            ok && lowercase_of(old(self).query_spec()).len() == 0 ==> final(self).cursor_spec() == 0,
            ok && lowercase_of(old(self).query_spec()).len() > 0 ==> final(self).cursor_spec() == (if final(self).matches_spec().len() == 0 {
                0
            } else if old(self).cursor_spec() >= final(self).matches_spec().len() {
                (final(self).matches_spec().len() - 1) as nat
            } else {
                old(self).cursor_spec()
            }),
            engine_call(*old(self), EngineCall::Filter, *final(self)),
    {
        let mut i: usize = 0;
        while i < items.len()
            invariant
                i <= items@.len(),
                forall|j: int| 0 <= j < i ==> (#[trigger] lowercase_of(items@[j]@)).len()
                    < MAX_CANDIDATE_LEN,
            decreases items@.len() - i,
        {
            let lc = to_lowercase(items[i]);
            let n = chars_of(lc.as_str()).len();
            if n >= MAX_CANDIDATE_LEN {
                return false;
            }
            i = i + 1;
        }
        self.filter(items);
        true
    }
}


// ------------------------------------------------------------------
// Plain subsequence search over (label, id) items
// ------------------------------------------------------------------

/// Whether `query` occurs in `candidate` as a subsequence (characters in order, gaps allowed).
pub fn is_subsequence_of(query: &[char], candidate: &[char]) -> (r: bool)
    ensures
        r == is_subsequence(query@, candidate@),
{
    let mut i: usize = 0;
    let mut j: usize = 0;
    proof {
        assert(query@.skip(0) =~= query@);
    }
    while i < query.len() && j < candidate.len()
        invariant
            i <= query@.len(),
            j <= candidate@.len(),
            (greedy(query@, candidate@) is Some) == (greedy_from(
                query@.skip(i as int),
                candidate@,
                j as int,
            ) is Some),
        decreases query@.len() - i + candidate@.len() - j,
    {
        let ghost qs = query@.skip(i as int);
        assert(qs[0] == query@[i as int]);
        assert(qs.drop_first() =~= query@.skip(i + 1));
        if candidate[j] == query[i] {
            i = i + 1;
        } else {
            assert(first_from(candidate@, qs[0], j as int) == first_from(
                candidate@,
                qs[0],
                j + 1,
            ));
        }
        j = j + 1;
    }
    proof {
        lemma_greedy_complete(query@, candidate@);
        if i < query@.len() {
            let qs = query@.skip(i as int);
            assert(qs[0] == query@[i as int]);
            assert(first_from(candidate@, qs[0], j as int) is None);
        } else {
            assert(query@.skip(i as int) =~= Seq::<char>::empty());
        }
    }
    i == query.len()
}

/// Whether `query` is a subsequence of `text` (case-sensitive): the yes-or-no test of the
/// label search below, with the text first. The ranked match that [`FuzzyEngine`] uses, with
/// its score and positions, is [`score_match`] (query first).
pub fn fuzzy_match(text: &str, query: &str) -> (r: bool)
    ensures
        r == is_subsequence(query@, text@),
{
    let t = chars_of(text);
    let q = chars_of(query);
    is_subsequence_of(q.as_slice(), t.as_slice())
}

/// Ids of the items whose lowercased label contains the lowercased query as a
/// subsequence, in item order.
pub open spec fn subsequence_hits(q: Seq<char>, items: Seq<(&str, usize)>) -> Seq<usize>
    decreases items.len(),
{
    if items.len() == 0 {
        Seq::empty()
    } else {
        let rest = subsequence_hits(q, items.drop_last());
        if is_subsequence(q, lowercase_of(items.last().0@)) {
            rest.push(items.last().1)
        } else {
            rest
        }
    }
}

/// Incremental search over `(label, id)` items: the query, the ids of the items it
/// matches (the lowercased query as a subsequence of the lowercased label, in item order,
/// unranked), and a cursor into them. The ranked search of the main view's lists is
/// [`FuzzyEngine`] instead.
pub struct SearchState {
    pub query: String,
    pub results: Vec<usize>,
    pub cursor: usize,
}

impl SearchState {
    pub fn new() -> (r: Self)
        ensures
            r.query@ == Seq::<char>::empty(),
            r.results@ == Seq::<usize>::empty(),
            r.cursor == 0,
    {
        SearchState { query: String::new(), results: Vec::new(), cursor: 0 }
    }

    /// Number of matching items.
    pub fn result_count(&self) -> (r: usize)
        ensures
            r == self.results@.len(),
    {
        self.results.len()
    }

    /// Recomputes the results for the current query and clamps the cursor to them.
    pub fn rebuild(&mut self, items: &[(&str, usize)])
        ensures
            final(self).query@ == old(self).query@,
            final(self).results@ == subsequence_hits(lowercase_of(old(self).query@), items@),
            final(self).cursor == (if final(self).results@.len() == 0 {
                0
            } else if old(self).cursor >= final(self).results@.len() {
                (final(self).results@.len() - 1) as usize
            } else {
                old(self).cursor
            }),
    {
        let lq = to_lowercase(self.query.as_str());
        let q = chars_of(lq.as_str());
        let mut results: Vec<usize> = Vec::new();
        let mut i: usize = 0;
        while i < items.len()
            invariant
                i <= items@.len(),
                q@ == lowercase_of(self.query@),
                results@ == subsequence_hits(q@, items@.take(i as int)),
            decreases items@.len() - i,
        {
            let (label, id) = items[i];
            let lc = to_lowercase(label);
            let c = chars_of(lc.as_str());
            assert(items@.take(i + 1).drop_last() =~= items@.take(i as int));
            assert(items@.take(i + 1).last() == items@[i as int]);
            if is_subsequence_of(q.as_slice(), c.as_slice()) {
                results.push(id);
            }
            i = i + 1;
        }
        assert(items@.take(items@.len() as int) =~= items@);
        self.results = results;
        if self.results.len() == 0 {
            self.cursor = 0;
        } else if self.cursor >= self.results.len() {
            self.cursor = self.results.len() - 1;
        }
    }

    /// Appends `c` to the query and rebuilds.
    pub fn push(&mut self, c: char, items: &[(&str, usize)])
        ensures
            final(self).query@ == old(self).query@.push(c),
            final(self).results@ == subsequence_hits(lowercase_of(old(self).query@.push(c)), items@),
    {
        crate::text::push_char(&mut self.query, c);
        self.rebuild(items);
    }

    /// Removes the last query character and rebuilds; returns whether a query remains.
    pub fn pop(&mut self, items: &[(&str, usize)]) -> (active: bool)
        ensures
            final(self).query@ == (if old(self).query@.len() > 0 {
                old(self).query@.drop_last()
            } else {
                old(self).query@
            }),
            final(self).results@ == subsequence_hits(lowercase_of(final(self).query@), items@),
            active == (final(self).query@.len() > 0),
    {
        crate::text::pop_char(&mut self.query);
        self.rebuild(items);
        broadcast use vstd::string::group_string_axioms;

        !self.query.as_str().is_empty()
    }

    /// Moves the cursor up, stopping at the first result.
    pub fn move_up(&mut self)
        ensures
            final(self).query@ == old(self).query@,
            final(self).results@ == old(self).results@,
            final(self).cursor == (if old(self).cursor > 0 {
                (old(self).cursor - 1) as usize
            } else {
                0
            }),
    {
        if self.cursor > 0 {
            self.cursor = self.cursor - 1;
        }
    }

    /// Moves the cursor down, stopping at the last result.
    pub fn move_down(&mut self)
        ensures
            final(self).query@ == old(self).query@,
            final(self).results@ == old(self).results@,
            final(self).cursor == (if old(self).cursor + 1 < old(self).results@.len() {
                (old(self).cursor + 1) as usize
            } else {
                old(self).cursor
            }),
    {
        if self.cursor < self.results.len() && self.cursor + 1 < self.results.len() {
            self.cursor = self.cursor + 1;
        }
    }

    /// The id under the cursor.
    pub fn selected_index(&self) -> (r: Option<usize>)
        ensures
            r == (if self.cursor < self.results@.len() {
                Some(self.results@[self.cursor as int])
            } else {
                None::<usize>
            }),
    {
        if self.cursor < self.results.len() {
            Some(self.results[self.cursor])
        } else {
            None
        }
    }
}

} // verus!
