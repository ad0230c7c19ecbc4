//! Ordered string-keyed map and set, kept as vectors sorted by key.
//!
//! Keys are ordered by comparing their characters one by one (code point order),
//! which is the order in which a `BTreeMap<String, _>` walks its keys.
use vstd::prelude::*;

use crate::text::chars_of;

verus! {

/// `a` comes strictly before `b` in code point lexicographic order.
pub open spec fn text_lt(a: Seq<char>, b: Seq<char>) -> bool
    decreases a.len(),
{
    if a.len() == 0 {
        b.len() > 0
    } else if b.len() == 0 {
        false
    } else if a[0] < b[0] {
        true
    } else if a[0] == b[0] {
        text_lt(a.drop_first(), b.drop_first())
    } else {
        false
    }
}

/// No text comes before itself.
pub proof fn lemma_text_lt_irreflexive(a: Seq<char>)
    ensures
        !text_lt(a, a),
    decreases a.len(),
{
    if a.len() > 0 {
        lemma_text_lt_irreflexive(a.drop_first());
    }
}

/// Two different texts are ordered one way or the other, never both.
pub proof fn lemma_text_lt_total(a: Seq<char>, b: Seq<char>)
    ensures
        a != b ==> text_lt(a, b) || text_lt(b, a),
        !(text_lt(a, b) && text_lt(b, a)),
    decreases a.len(),
{
    if a.len() > 0 && b.len() > 0 {
        if a[0] == b[0] {
            lemma_text_lt_total(a.drop_first(), b.drop_first());
            if a != b {
                assert(a.drop_first() != b.drop_first()) by {
                    if a.drop_first() == b.drop_first() {
                        assert(a =~= seq![a[0]] + a.drop_first());
                        assert(b =~= seq![b[0]] + b.drop_first());
                    }
                }
            }
        }
    } else if a.len() == 0 && b.len() == 0 {
        assert(a =~= b);
    }
}

/// The order is transitive.
pub proof fn lemma_text_lt_transitive(a: Seq<char>, b: Seq<char>, c: Seq<char>)
    requires
        text_lt(a, b),
        text_lt(b, c),
    ensures
        text_lt(a, c),
    decreases a.len(),
{
    if a.len() > 0 && b.len() > 0 && c.len() > 0 {
        if a[0] == b[0] && b[0] == c[0] {
            lemma_text_lt_transitive(a.drop_first(), b.drop_first(), c.drop_first());
        }
    }
}

/// Result of comparing two texts.
#[derive(Debug, Clone, Copy, PartialEq, Eq, Structural)]
pub enum TextOrder {
    Before,
    Same,
    After,
}

/// Compares two texts in code point lexicographic order.
pub fn text_order(a: &[char], b: &[char]) -> (r: TextOrder)
    ensures
        (r == TextOrder::Before) == text_lt(a@, b@),
        (r == TextOrder::Same) == (a@ == b@),
        (r == TextOrder::After) == text_lt(b@, a@),
{
    let mut i: usize = 0;
    assert(a@.skip(0) =~= a@ && b@.skip(0) =~= b@);
    assert(a@.take(0) =~= b@.take(0));
    while i < a.len() && i < b.len()
        invariant
            i <= a@.len(),
            i <= b@.len(),
            a@.take(i as int) == b@.take(i as int),
            text_lt(a@, b@) == text_lt(a@.skip(i as int), b@.skip(i as int)),
            text_lt(b@, a@) == text_lt(b@.skip(i as int), a@.skip(i as int)),
        decreases a@.len() - i,
    {
        let ghost sa = a@.skip(i as int);
        let ghost sb = b@.skip(i as int);
        assert(sa[0] == a@[i as int] && sb[0] == b@[i as int]);
        assert(sa.drop_first() =~= a@.skip(i + 1));
        assert(sb.drop_first() =~= b@.skip(i + 1));
        if a[i] < b[i] {
            proof {
                lemma_text_lt_total(a@, b@);
                assert(a@[i as int] != b@[i as int]);
            }
            return TextOrder::Before;
        }
        if b[i] < a[i] {
            proof {
                lemma_text_lt_total(a@, b@);
                assert(a@[i as int] != b@[i as int]);
            }
            return TextOrder::After;
        }
        assert(a@.take(i + 1) =~= a@.take(i as int).push(a@[i as int]));
        assert(b@.take(i + 1) =~= b@.take(i as int).push(b@[i as int]));
        i = i + 1;
    }
    proof {
        lemma_text_lt_total(a@, b@);
    }
    if a.len() == b.len() {
        assert(a@ =~= a@.take(i as int));
        assert(b@ =~= b@.take(i as int));
        proof {
            lemma_text_lt_irreflexive(a@);
        }
        TextOrder::Same
    } else if a.len() < b.len() {
        assert(a@ != b@) by {
            assert(a@.len() != b@.len());
        }
        TextOrder::Before
    } else {
        assert(a@ != b@) by {
            assert(a@.len() != b@.len());
        }
        TextOrder::After
    }
}

/// Keys of the entries are strictly increasing.
pub open spec fn keys_sorted<V>(s: Seq<(Seq<char>, V)>) -> bool {
    forall|i: int, j: int| 0 <= i < j < s.len() ==> text_lt(#[trigger] s[i].0, #[trigger] s[j].0)
}

/// `k` is the key of some entry.
pub open spec fn has_key<V>(s: Seq<(Seq<char>, V)>, k: Seq<char>) -> bool {
    exists|i: int| 0 <= i < s.len() && (#[trigger] s[i]).0 == k
}

/// An index of an entry with key `k` (meaningful when there is one).
pub open spec fn key_index<V>(s: Seq<(Seq<char>, V)>, k: Seq<char>) -> int {
    choose|i: int| 0 <= i < s.len() && (#[trigger] s[i]).0 == k
}

/// The value stored under `k`.
pub open spec fn map_get<V>(s: Seq<(Seq<char>, V)>, k: Seq<char>) -> Option<V> {
    if has_key(s, k) {
        Some(s[key_index(s, k)].1)
    } else {
        None
    }
}

/// The keys, in order.
pub open spec fn keys_of<V>(s: Seq<(Seq<char>, V)>) -> Seq<Seq<char>> {
    s.map_values(|e: (Seq<char>, V)| e.0)
}

/// In sorted entries, the entry at index `i` is the one `map_get` finds for its key.
pub proof fn lemma_map_get_at<V>(s: Seq<(Seq<char>, V)>, i: int)
    requires
        keys_sorted(s),
        0 <= i < s.len(),
    ensures
        map_get(s, s[i].0) == Some(s[i].1),
{
    let k = s[i].0;
    assert(s[i].0 == k);
    assert(has_key(s, k));
    let j = key_index(s, k);
    assert(0 <= j < s.len() && s[j].0 == k);
    if j != i {
        lemma_text_lt_irreflexive(k);
        if j < i {
            assert(text_lt(s[j].0, s[i].0));
        } else {
            assert(text_lt(s[i].0, s[j].0));
        }
    }
}

/// Two strictly increasing sequences of texts with the same elements are equal.
pub proof fn lemma_sorted_texts_ext(a: Seq<Seq<char>>, b: Seq<Seq<char>>)
    requires
        texts_sorted(a),
        texts_sorted(b),
        forall|k: Seq<char>| a.contains(k) == b.contains(k),
    ensures
        a == b,
    decreases a.len() + b.len(),
{
    if a.len() == 0 {
        if b.len() > 0 {
            assert(b.contains(b[0]));
        }
        assert(a =~= b);
    } else {
        assert(a.contains(a[0]));
        assert(b.len() > 0);
        assert(b.contains(b[0]));
        let j = choose|j: int| 0 <= j < b.len() && b[j] == a[0];
        let i = choose|i: int| 0 <= i < a.len() && a[i] == b[0];
        if i > 0 && j > 0 {
            assert(text_lt(a[0], a[i]));
            assert(text_lt(b[0], b[j]));
            lemma_text_lt_transitive(a[0], b[0], a[0]);
            lemma_text_lt_irreflexive(a[0]);
        }
        assert(a[0] == b[0]);
        let ra = a.drop_first();
        let rb = b.drop_first();
        assert forall|k: Seq<char>| ra.contains(k) == rb.contains(k) by {
            if ra.contains(k) {
                let x = choose|x: int| 0 <= x < ra.len() && ra[x] == k;
                assert(a[x + 1] == k);
                assert(text_lt(a[0], a[x + 1]));
                lemma_text_lt_irreflexive(k);
                assert(b.contains(k));
                let y = choose|y: int| 0 <= y < b.len() && b[y] == k;
                assert(y != 0);
                assert(rb[y - 1] == k);
            }
            if rb.contains(k) {
                let x = choose|x: int| 0 <= x < rb.len() && rb[x] == k;
                assert(b[x + 1] == k);
                assert(text_lt(b[0], b[x + 1]));
                lemma_text_lt_irreflexive(k);
                assert(a.contains(k));
                let y = choose|y: int| 0 <= y < a.len() && a[y] == k;
                assert(y != 0);
                assert(ra[y - 1] == k);
            }
        }
        lemma_sorted_texts_ext(ra, rb);
        assert(a =~= seq![a[0]] + ra);
        assert(b =~= seq![b[0]] + rb);
    }
}

/// Two maps with sorted keys that give the same value for every key are equal.
pub proof fn lemma_sorted_map_ext<V>(a: Seq<(Seq<char>, V)>, b: Seq<(Seq<char>, V)>)
    requires
        keys_sorted(a),
        keys_sorted(b),
        forall|k: Seq<char>| #[trigger] map_get(a, k) == map_get(b, k),
    ensures
        a == b,
{
    let ka = keys_of(a);
    let kb = keys_of(b);
    assert forall|k: Seq<char>| ka.contains(k) == kb.contains(k) by {
        if ka.contains(k) {
            let i = choose|i: int| 0 <= i < ka.len() && ka[i] == k;
            assert(a[i].0 == k);
            assert(has_key(a, k));
            assert(map_get(b, k) is Some);
            let j = key_index(b, k);
            assert(kb[j] == k);
        }
        if kb.contains(k) {
            let i = choose|i: int| 0 <= i < kb.len() && kb[i] == k;
            assert(b[i].0 == k);
            assert(has_key(b, k));
            assert(map_get(a, k) is Some);
            let j = key_index(a, k);
            assert(ka[j] == k);
        }
    }
    assert(texts_sorted(ka));
    assert(texts_sorted(kb));
    lemma_sorted_texts_ext(ka, kb);
    assert forall|i: int| 0 <= i < a.len() implies a[i] == b[i] by {
        assert(ka[i] == kb[i]);
        lemma_map_get_at(a, i);
        lemma_map_get_at(b, i);
        assert(map_get(a, a[i].0) == map_get(b, b[i].0));
    }
    assert(a =~= b);
}

/// Changing the value at one position changes what `map_get` gives for that key only.
pub proof fn lemma_map_get_update<V>(s: Seq<(Seq<char>, V)>, i: int, v: V)
    requires
        keys_sorted(s),
        0 <= i < s.len(),
    ensures
        keys_sorted(s.update(i, (s[i].0, v))),
        forall|k: Seq<char>| #[trigger] map_get(s.update(i, (s[i].0, v)), k) == if k == s[i].0 {
            Some(v)
        } else {
            map_get(s, k)
        },
        forall|k: Seq<char>| #[trigger] has_key(s.update(i, (s[i].0, v)), k) == has_key(s, k),
{
    let n = s.update(i, (s[i].0, v));
    assert forall|a: int, b: int| 0 <= a < b < n.len() implies text_lt(#[trigger] n[a].0, #[trigger] n[b].0) by {
        assert(n[a].0 == s[a].0 && n[b].0 == s[b].0);
    }
    assert forall|k: Seq<char>| #[trigger] has_key(n, k) == has_key(s, k) by {
        if has_key(n, k) {
            let j = choose|j: int| 0 <= j < n.len() && (#[trigger] n[j]).0 == k;
            assert(s[j].0 == k);
        }
        if has_key(s, k) {
            let j = choose|j: int| 0 <= j < s.len() && (#[trigger] s[j]).0 == k;
            assert(n[j].0 == k);
        }
    }
    assert forall|k: Seq<char>| #[trigger] map_get(n, k) == if k == s[i].0 {
        Some(v)
    } else {
        map_get(s, k)
    } by {
        if has_key(s, k) {
            let j = choose|j: int| 0 <= j < s.len() && (#[trigger] s[j]).0 == k;
            lemma_map_get_at(s, j);
            lemma_map_get_at(n, j);
            if j != i {
                lemma_text_lt_irreflexive(k);
                if k == s[i].0 {
                    if j < i {
                        assert(text_lt(s[j].0, s[i].0));
                    } else {
                        assert(text_lt(s[i].0, s[j].0));
                    }
                }
            }
        }
    }
}

/// A map from strings to values, kept sorted by key.
pub struct StrMap<V> {
    entries: Vec<(String, V)>,
}

impl<V> View for StrMap<V> {
    type V = Seq<(Seq<char>, V)>;

    closed spec fn view(&self) -> Seq<(Seq<char>, V)> {
        self.entries@.map_values(|e: (String, V)| (e.0@, e.1))
    }
}

impl<V> StrMap<V> {
    #[verifier::type_invariant]
    spec fn inv(self) -> bool {
        keys_sorted(self@)
    }

    /// Brings the sortedness of the entries into the caller's proof context (no run-time work).
    pub fn reveal_sorted(&self)
        ensures
            keys_sorted(self@),
    {
        proof {
            use_type_invariant(self);
        }
    }

    pub fn new() -> (r: Self)
        ensures
            r@ == Seq::<(Seq<char>, V)>::empty(),
    {
        let r = StrMap { entries: Vec::new() };
        assert(r@ =~= Seq::<(Seq<char>, V)>::empty());
        r
    }

    pub fn len(&self) -> (r: usize)
        ensures
            r == self@.len(),
    {
        self.entries.len()
    }

    pub fn is_empty(&self) -> (r: bool)
        ensures
            r == (self@.len() == 0),
    {
        self.entries.len() == 0
    }

    /// The entries, sorted by key.
    pub fn entries(&self) -> (r: &[(String, V)])
        ensures
            r@.map_values(|e: (String, V)| (e.0@, e.1)) == self@,
    {
        self.entries.as_slice()
    }

    /// The entries, sorted by key, taken out of the map.
    pub fn into_entries(self) -> (r: Vec<(String, V)>)
        ensures
            r@.map_values(|e: (String, V)| (e.0@, e.1)) == self@,
            keys_sorted(self@),
    {
        proof {
            use_type_invariant(&self);
        }
        self.entries
    }

    /// Key at position `i` (in key order).
    pub fn key_at(&self, i: usize) -> (r: &String)
        requires
            i < self@.len(),
        ensures
            r@ == self@[i as int].0,
    {
        &self.entries[i].0
    }

    /// Value at position `i` (in key order).
    pub fn value_at(&self, i: usize) -> (r: &V)
        requires
            i < self@.len(),
        ensures
            *r == self@[i as int].1,
    {
        &self.entries[i].1
    }

    /// Position of the first entry whose key is not before `k`; whether that entry has key `k`.
    fn locate(&self, k: &[char]) -> (r: (usize, bool))
        ensures
            r.0 <= self@.len(),
            forall|i: int| 0 <= i < r.0 ==> text_lt(#[trigger] self@[i].0, k@),
            r.1 == (r.0 < self@.len() && self@[r.0 as int].0 == k@),
            r.0 < self@.len() && !r.1 ==> text_lt(k@, self@[r.0 as int].0),
            r.1 == has_key(self@, k@),
    {
        proof {
            use_type_invariant(self);
        }
        let mut i: usize = 0;
        while i < self.entries.len()
            invariant
                i <= self@.len(),
                self@.len() == self.entries@.len(),
                keys_sorted(self@),
                forall|j: int| 0 <= j < i ==> text_lt(#[trigger] self@[j].0, k@),
            decreases self@.len() - i,
        {
            let key = chars_of(self.entries[i].0.as_str());
            assert(key@ == self@[i as int].0);
            match crate::collections::text_order(key.as_slice(), k) {
                TextOrder::Before => {
                    i = i + 1;
                },
                TextOrder::Same => {
                    return (i, true);
                },
                TextOrder::After => {
                    proof {
                        assert forall|j: int| 0 <= j < self@.len() implies (#[trigger] self@[j]).0
                            != k@ by {
                            lemma_text_lt_irreflexive(k@);
                            if j < i {
                                lemma_text_lt_total(self@[j].0, k@);
                            } else if j > i {
                                assert(text_lt(self@[i as int].0, self@[j].0));
                                lemma_text_lt_transitive(k@, self@[i as int].0, self@[j].0);
                                lemma_text_lt_total(k@, self@[j].0);
                            } else {
                                lemma_text_lt_total(k@, self@[j].0);
                            }
                        }
                    }
                    return (i, false);
                },
            }
        }
        proof {
            assert forall|j: int| 0 <= j < self@.len() implies (#[trigger] self@[j]).0 != k@ by {
                lemma_text_lt_irreflexive(k@);
            }
        }
        (i, false)
    }

    /// Replaces the value at position `i` (in key order); returns the value it held.
    pub fn replace_at(&mut self, i: usize, value: V) -> (r: V)
        requires
            i < old(self)@.len(),
        ensures
            r == old(self)@[i as int].1,
            final(self)@ == old(self)@.update(i as int, (old(self)@[i as int].0, value)),
    {
        proof {
            use_type_invariant(&*self);
        }
        let ghost old_s = self@;
        let mut entries: Vec<(String, V)> = Vec::new();
        std::mem::swap(&mut entries, &mut self.entries);
        let (k, v) = entries.remove(i);
        entries.insert(i, (k, value));
        proof {
            assert(entries@.map_values(|e: (String, V)| (e.0@, e.1)) =~= old_s.update(i as int, (old_s[i as int].0, value)));
            assert(keys_sorted(old_s.update(i as int, (old_s[i as int].0, value)))) by {
                let n = old_s.update(i as int, (old_s[i as int].0, value));
                assert forall|a: int, b: int| 0 <= a < b < n.len() implies text_lt(#[trigger] n[a].0, #[trigger] n[b].0) by {
                    assert(n[a].0 == old_s[a].0 && n[b].0 == old_s[b].0);
                }
            }
        }
        self.entries = entries;
        v
    }

    /// Whether `key` is present.
    pub fn contains_key(&self, key: &str) -> (r: bool)
        ensures
            r == has_key(self@, key@),
    {
        let k = chars_of(key);
        self.locate(k.as_slice()).1
    }

    /// The value under `key`.
    pub fn get(&self, key: &str) -> (r: Option<&V>)
        ensures
            match r {
                Some(v) => map_get(self@, key@) == Some(*v),
                None => map_get(self@, key@) is None,
            },
    {
        proof {
            use_type_invariant(self);
        }
        let k = chars_of(key);
        let (p, found) = self.locate(k.as_slice());
        if found {
            proof {
                lemma_map_get_at(self@, p as int);
            }
            Some(&self.entries[p].1)
        } else {
            None
        }
    }

    /// Stores `value` under `key`; returns the value it replaces.
    pub fn insert(&mut self, key: String, value: V) -> (r: Option<V>)
        ensures
            keys_sorted(final(self)@),
            r == map_get(old(self)@, key@),
            map_get(final(self)@, key@) == Some(value),
            forall|k: Seq<char>| k != key@ ==> #[trigger] map_get(final(self)@, k) == map_get(old(self)@, k),
            forall|k: Seq<char>| #[trigger] has_key(final(self)@, k) == (has_key(old(self)@, k) || k == key@),
            final(self)@.len() == old(self)@.len() + (if has_key(old(self)@, key@) { 0int } else { 1int }),
    {
        proof {
            use_type_invariant(&*self);
        }
        let k = chars_of(key.as_str());
        let (p, found) = self.locate(k.as_slice());
        let ghost old_s = self@;
        if found {
            let ghost new_s = old_s.update(p as int, (key@, value));
            let mut entries: Vec<(String, V)> = Vec::new();
            std::mem::swap(&mut entries, &mut self.entries);
            let (_, old_v) = entries.remove(p);
            entries.insert(p, (key, value));
            proof {
                assert(entries@.map_values(|e: (String, V)| (e.0@, e.1)) =~= new_s);
                lemma_map_get_at(old_s, p as int);
                assert(keys_sorted(new_s)) by {
                    assert forall|i: int, j: int| 0 <= i < j < new_s.len() implies text_lt(
                        #[trigger] new_s[i].0,
                        #[trigger] new_s[j].0,
                    ) by {
                        assert(new_s[i].0 == old_s[i].0 && new_s[j].0 == old_s[j].0);
                    }
                }
                lemma_map_get_at(new_s, p as int);
                Self::lemma_same_keys_get(old_s, new_s, p as int);
            }
            self.entries = entries;
            Some(old_v)
        } else {
            let ghost new_s = old_s.insert(p as int, (key@, value));
            proof {
                assert forall|m: int| p <= m < old_s.len() implies text_lt(key@, #[trigger] old_s[m].0) by {
                    if m > p {
                        assert(text_lt(old_s[p as int].0, old_s[m].0));
                        lemma_text_lt_transitive(key@, old_s[p as int].0, old_s[m].0);
                    }
                }
            }
            let mut entries: Vec<(String, V)> = Vec::new();
            std::mem::swap(&mut entries, &mut self.entries);
            entries.insert(p, (key, value));
            proof {
                assert(entries@.map_values(|e: (String, V)| (e.0@, e.1)) =~= new_s);
                assert(keys_sorted(new_s)) by {
                    assert forall|i: int, j: int| 0 <= i < j < new_s.len() implies text_lt(
                        #[trigger] new_s[i].0,
                        #[trigger] new_s[j].0,
                    ) by {
                        if i < p && j < p {
                            assert(new_s[i] == old_s[i] && new_s[j] == old_s[j]);
                        } else if i < p && j == p {
                            assert(new_s[i] == old_s[i]);
                        } else if i < p {
                            assert(new_s[i] == old_s[i] && new_s[j] == old_s[j - 1]);
                            lemma_text_lt_transitive(old_s[i].0, key@, old_s[j - 1].0);
                        } else if i == p {
                            assert(new_s[j] == old_s[j - 1]);
                        } else {
                            assert(new_s[i] == old_s[i - 1] && new_s[j] == old_s[j - 1]);
                        }
                    }
                }
                lemma_map_get_at(new_s, p as int);
                Self::lemma_insert_get(old_s, new_s, p as int);
            }
            self.entries = entries;
            None
        }
    }

    proof fn lemma_same_keys_get(old_s: Seq<(Seq<char>, V)>, new_s: Seq<(Seq<char>, V)>, p: int)
        requires
            keys_sorted(old_s),
            keys_sorted(new_s),
            0 <= p < old_s.len(),
            new_s.len() == old_s.len(),
            forall|i: int| 0 <= i < old_s.len() && i != p ==> new_s[i] == old_s[i],
            new_s[p].0 == old_s[p].0,
        ensures
            forall|k: Seq<char>| k != old_s[p].0 ==> #[trigger] map_get(new_s, k) == map_get(old_s, k),
            forall|k: Seq<char>| #[trigger] has_key(new_s, k) == has_key(old_s, k),
    {
        assert forall|k: Seq<char>| #[trigger] has_key(new_s, k) == has_key(old_s, k) by {
            if has_key(new_s, k) {
                let i = choose|i: int| 0 <= i < new_s.len() && (#[trigger] new_s[i]).0 == k;
                assert(old_s[i].0 == k);
            }
            if has_key(old_s, k) {
                let i = choose|i: int| 0 <= i < old_s.len() && (#[trigger] old_s[i]).0 == k;
                assert(new_s[i].0 == k);
            }
        }
        assert forall|k: Seq<char>| k != old_s[p].0 implies #[trigger] map_get(new_s, k) == map_get(
            old_s,
            k,
        ) by {
            if has_key(old_s, k) {
                let i = choose|i: int| 0 <= i < old_s.len() && (#[trigger] old_s[i]).0 == k;
                lemma_map_get_at(old_s, i);
                lemma_map_get_at(new_s, i);
            }
        }
    }

    proof fn lemma_insert_get(old_s: Seq<(Seq<char>, V)>, new_s: Seq<(Seq<char>, V)>, p: int)
        requires
            keys_sorted(old_s),
            keys_sorted(new_s),
            0 <= p <= old_s.len(),
            new_s.len() == old_s.len() + 1,
            forall|i: int| 0 <= i < p ==> new_s[i] == old_s[i],
            forall|i: int| p < i < new_s.len() ==> new_s[i] == old_s[i - 1],
            !has_key(old_s, new_s[p].0),
        ensures
            forall|k: Seq<char>| k != new_s[p].0 ==> #[trigger] map_get(new_s, k) == map_get(old_s, k),
            forall|k: Seq<char>| #[trigger] has_key(new_s, k) == (has_key(old_s, k) || k == new_s[p].0),
    {
        assert forall|k: Seq<char>| #[trigger] has_key(new_s, k) == (has_key(old_s, k) || k
            == new_s[p].0) by {
            if has_key(new_s, k) {
                let i = choose|i: int| 0 <= i < new_s.len() && (#[trigger] new_s[i]).0 == k;
                if i < p {
                    assert(old_s[i].0 == k);
                } else if i > p {
                    assert(old_s[i - 1].0 == k);
                }
            }
            if has_key(old_s, k) {
                let i = choose|i: int| 0 <= i < old_s.len() && (#[trigger] old_s[i]).0 == k;
                if i < p {
                    assert(new_s[i].0 == k);
                } else {
                    assert(new_s[i + 1].0 == k);
                }
            }
            if k == new_s[p].0 {
                assert(new_s[p].0 == k);
            }
        }
        assert forall|k: Seq<char>| k != new_s[p].0 implies #[trigger] map_get(new_s, k) == map_get(
            old_s,
            k,
        ) by {
            if has_key(old_s, k) {
                let i = choose|i: int| 0 <= i < old_s.len() && (#[trigger] old_s[i]).0 == k;
                lemma_map_get_at(old_s, i);
                if i < p {
                    lemma_map_get_at(new_s, i);
                } else {
                    lemma_map_get_at(new_s, i + 1);
                }
            }
        }
    }

    /// Removes `key`; returns the value it held.
    pub fn remove(&mut self, key: &str) -> (r: Option<V>)
        ensures
            keys_sorted(final(self)@),
            r == map_get(old(self)@, key@),
            map_get(final(self)@, key@) is None,
            !has_key(final(self)@, key@),
            forall|k: Seq<char>| k != key@ ==> #[trigger] map_get(final(self)@, k) == map_get(old(self)@, k),
            forall|k: Seq<char>| #[trigger] has_key(final(self)@, k) == (has_key(old(self)@, k) && k != key@),
            final(self)@.len() == old(self)@.len() - (if has_key(old(self)@, key@) { 1int } else { 0int }),
            !has_key(old(self)@, key@) ==> final(self)@ == old(self)@,
    {
        proof {
            use_type_invariant(&*self);
        }
        let k = chars_of(key);
        let (p, found) = self.locate(k.as_slice());
        let ghost old_s = self@;
        if found {
            let mut entries: Vec<(String, V)> = Vec::new();
            std::mem::swap(&mut entries, &mut self.entries);
            let (_, v) = entries.remove(p);
            let ghost new_s = entries@.map_values(|e: (String, V)| (e.0@, e.1));
            proof {
                assert(new_s =~= old_s.remove(p as int));
                assert(keys_sorted(new_s)) by {
                    assert forall|i: int, j: int| 0 <= i < j < new_s.len() implies text_lt(
                        #[trigger] new_s[i].0,
                        #[trigger] new_s[j].0,
                    ) by {
                        if j < p {
                            assert(new_s[i] == old_s[i] && new_s[j] == old_s[j]);
                        } else if i < p {
                            assert(new_s[i] == old_s[i] && new_s[j] == old_s[j + 1]);
                        } else {
                            assert(new_s[i] == old_s[i + 1] && new_s[j] == old_s[j + 1]);
                        }
                    }
                }
                lemma_map_get_at(old_s, p as int);
                assert forall|k2: Seq<char>| #[trigger] has_key(new_s, k2) == (has_key(old_s, k2)
                    && k2 != key@) by {
                    if has_key(new_s, k2) {
                        let i = choose|i: int| 0 <= i < new_s.len() && (#[trigger] new_s[i]).0 == k2;
                        if i < p {
                            assert(old_s[i].0 == k2);
                            assert(text_lt(old_s[i].0, old_s[p as int].0));
                            lemma_text_lt_irreflexive(k2);
                        } else {
                            assert(old_s[i + 1].0 == k2);
                            assert(text_lt(old_s[p as int].0, old_s[i + 1].0));
                            lemma_text_lt_irreflexive(k2);
                        }
                    }
                    if has_key(old_s, k2) && k2 != key@ {
                        let i = choose|i: int| 0 <= i < old_s.len() && (#[trigger] old_s[i]).0 == k2;
                        if i < p {
                            assert(new_s[i].0 == k2);
                        } else {
                            assert(i != p);
                            assert(new_s[i - 1].0 == k2);
                        }
                    }
                }
                assert forall|k2: Seq<char>| k2 != key@ implies #[trigger] map_get(new_s, k2)
                    == map_get(old_s, k2) by {
                    if has_key(old_s, k2) {
                        let i = choose|i: int| 0 <= i < old_s.len() && (#[trigger] old_s[i]).0 == k2;
                        lemma_map_get_at(old_s, i);
                        if i < p {
                            lemma_map_get_at(new_s, i);
                        } else {
                            assert(i != p);
                            lemma_map_get_at(new_s, i - 1);
                        }
                    }
                }
            }
            self.entries = entries;
            Some(v)
        } else {
            None
        }
    }
}

impl StrMap<String> {
    /// A copy of this map.
    pub fn duplicate(&self) -> (r: Self)
        ensures
            r@ == self@,
    {
        proof {
            use_type_invariant(self);
        }
        let mut v: Vec<(String, String)> = Vec::new();
        let mut i: usize = 0;
        while i < self.entries.len()
            invariant
                i <= self.entries@.len(),
                v@.len() == i,
                forall|k: int| 0 <= k < i ==> #[trigger] v@[k] == self.entries@[k],
            decreases self.entries@.len() - i,
        {
            let e = &self.entries[i];
            v.push((e.0.clone(), e.1.clone()));
            i = i + 1;
        }
        assert(v@ =~= self.entries@);
        StrMap { entries: v }
    }
}

impl StrMap<()> {
    fn duplicate_keys(&self) -> (r: Self)
        ensures
            r@ == self@,
    {
        proof {
            use_type_invariant(self);
        }
        let mut v: Vec<(String, ())> = Vec::new();
        let mut i: usize = 0;
        while i < self.entries.len()
            invariant
                i <= self.entries@.len(),
                v@.len() == i,
                forall|k: int| 0 <= k < i ==> #[trigger] v@[k] == self.entries@[k],
            decreases self.entries@.len() - i,
        {
            let e = &self.entries[i];
            v.push((e.0.clone(), ()));
            i = i + 1;
        }
        assert(v@ =~= self.entries@);
        StrMap { entries: v }
    }
}


/// A set of strings, kept sorted.
pub struct StrSet {
    map: StrMap<()>,
}

impl View for StrSet {
    type V = Seq<Seq<char>>;

    closed spec fn view(&self) -> Seq<Seq<char>> {
        keys_of(self.map@)
    }
}

/// Strictly increasing texts.
pub open spec fn texts_sorted(s: Seq<Seq<char>>) -> bool {
    forall|i: int, j: int| 0 <= i < j < s.len() ==> text_lt(#[trigger] s[i], #[trigger] s[j])
}

impl StrSet {
    /// Brings the sortedness of the elements (so each occurs once) into the caller's proof
    /// context (no run-time work).
    pub fn reveal_sorted(&self)
        ensures
            texts_sorted(self@),
    {
        self.map.reveal_sorted();
    }

    pub fn new() -> (r: Self)
        ensures
            r@ == Seq::<Seq<char>>::empty(),
    {
        let r = StrSet { map: StrMap::new() };
        assert(r@ =~= Seq::<Seq<char>>::empty());
        r
    }

    pub fn len(&self) -> (r: usize)
        ensures
            r == self@.len(),
    {
        self.map.len()
    }

    pub fn is_empty(&self) -> (r: bool)
        ensures
            r == (self@.len() == 0),
    {
        self.map.is_empty()
    }

    /// A copy of this set.
    pub fn duplicate(&self) -> (r: Self)
        ensures
            r@ == self@,
    {
        StrSet { map: self.map.duplicate_keys() }
    }

    /// Element at position `i`, in sorted order.
    pub fn at(&self, i: usize) -> (r: &String)
        requires
            i < self@.len(),
        ensures
            r@ == self@[i as int],
    {
        self.map.key_at(i)
    }

    pub fn contains(&self, s: &str) -> (r: bool)
        ensures
            r == self@.contains(s@),
    {
        let r = self.map.contains_key(s);
        proof {
            if r {
                let i = choose|i: int| 0 <= i < self.map@.len() && (#[trigger] self.map@[i]).0 == s@;
                assert(self@[i] == s@);
            }
            if self@.contains(s@) {
                let i = choose|i: int| 0 <= i < self@.len() && self@[i] == s@;
                assert(self.map@[i].0 == s@);
            }
        }
        r
    }

    proof fn lemma_contains_has_key(m: Seq<(Seq<char>, ())>, k: Seq<char>)
        ensures
            keys_of(m).contains(k) == has_key(m, k),
    {
        if keys_of(m).contains(k) {
            let i = choose|i: int| 0 <= i < keys_of(m).len() && keys_of(m)[i] == k;
            assert(m[i].0 == k);
        }
        if has_key(m, k) {
            let i = choose|i: int| 0 <= i < m.len() && (#[trigger] m[i]).0 == k;
            assert(keys_of(m)[i] == k);
        }
    }

    /// Adds `s`; returns whether it was absent.
    pub fn insert(&mut self, s: String) -> (added: bool)
        ensures
            texts_sorted(final(self)@),
            added == !old(self)@.contains(s@),
            forall|k: Seq<char>| #[trigger] final(self)@.contains(k) == (old(self)@.contains(k) || k == s@),
            final(self)@.len() == old(self)@.len() + (if added { 1int } else { 0int }),
    {
        let ghost sv = s@;
        let ghost old_m = self.map@;
        let r = self.map.insert(s, ());
        proof {
            Self::lemma_contains_has_key(old_m, sv);
            assert forall|k: Seq<char>| #[trigger] self@.contains(k) == (old(self)@.contains(k) || k
                == sv) by {
                Self::lemma_contains_has_key(old_m, k);
                Self::lemma_contains_has_key(self.map@, k);
            }
        }
        self.reveal_sorted();
        r.is_none()
    }

    /// Removes `s`; returns whether it was present.
    pub fn remove(&mut self, s: &str) -> (removed: bool)
        ensures
            texts_sorted(final(self)@),
            removed == old(self)@.contains(s@),
            forall|k: Seq<char>| #[trigger] final(self)@.contains(k) == (old(self)@.contains(k) && k != s@),
            final(self)@.len() == old(self)@.len() - (if removed { 1int } else { 0int }),
    {
        let ghost old_m = self.map@;
        let r = self.map.remove(s);
        proof {
            Self::lemma_contains_has_key(old_m, s@);
            assert forall|k: Seq<char>| #[trigger] self@.contains(k) == (old(self)@.contains(k) && k
                != s@) by {
                Self::lemma_contains_has_key(old_m, k);
                Self::lemma_contains_has_key(self.map@, k);
            }
        }
        self.reveal_sorted();
        r.is_some()
    }
}

} // verus!
