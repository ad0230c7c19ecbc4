//! Scoring of directory entries as application configs, and ranking of the results.
use vstd::prelude::*;

use crate::collections::{lemma_text_lt_irreflexive, lemma_text_lt_transitive, text_lt, text_order, StrSet, TextOrder};
use crate::data::{is_listed, known_apps, known_dotfiles, known_non_configs, KNOWN_APPS, KNOWN_DOTFILES, KNOWN_NON_CONFIGS};
use crate::paths::{join, path_join};
use crate::text::{chars_of, ends_with, has_suffix, lowercase_of, to_lowercase};

verus! {

#[derive(Debug, Clone, Copy, PartialEq, Eq, Structural)]
pub enum ItemType {
    Dir,
    File,
}

/// A directory entry judged to be an application config.
#[derive(Debug, Clone)]
pub struct DiscoveredItem {
    pub path: String,
    pub name: String,
    pub confidence: u32,
    pub item_type: ItemType,
}

/// One entry of a directory listing, as read from disk.
#[derive(Debug, Clone)]
pub struct ListedEntry {
    pub name: String,
    pub path: String,
    pub is_dir: bool,
    /// For a directory: whether it holds a config file or a dot entry.
    pub has_config_children: bool,
}

/// The file name ends in one of the config extensions
/// (toml, yaml, yml, json, conf, ini, cfg, rc, xml), compared in lowercase.
pub open spec fn is_config_name(lower: Seq<char>) -> bool {
    ||| has_suffix(lower, ".toml"@)
    ||| has_suffix(lower, ".yaml"@)
    ||| has_suffix(lower, ".yml"@)
    ||| has_suffix(lower, ".json"@)
    ||| has_suffix(lower, ".conf"@)
    ||| has_suffix(lower, ".ini"@)
    ||| has_suffix(lower, ".cfg"@)
    ||| has_suffix(lower, ".rc"@)
    ||| has_suffix(lower, ".xml"@)
}

/// Whether `name` looks like a config file by its extension (case-insensitive).
pub fn is_config_file(name: &str) -> (r: bool)
    ensures
        r == is_config_name(lowercase_of(name@)),
        r == (has_suffix(lowercase_of(name@), ".toml"@) || has_suffix(lowercase_of(name@), ".yaml"@) || has_suffix(
            lowercase_of(name@),
            ".yml"@,
        ) || has_suffix(lowercase_of(name@), ".json"@) || has_suffix(lowercase_of(name@), ".conf"@) || has_suffix(
            lowercase_of(name@),
            ".ini"@,
        ) || has_suffix(lowercase_of(name@), ".cfg"@) || has_suffix(lowercase_of(name@), ".rc"@) || has_suffix(
            lowercase_of(name@),
            ".xml"@,
        )),
{
    let lower_s = to_lowercase(name);
    let lower = chars_of(lower_s.as_str());
    let exts: [&str; 9] = [".toml", ".yaml", ".yml", ".json", ".conf", ".ini", ".cfg", ".rc", ".xml"];
    let e0 = chars_of(exts[0]);
    let e1 = chars_of(exts[1]);
    let e2 = chars_of(exts[2]);
    let e3 = chars_of(exts[3]);
    let e4 = chars_of(exts[4]);
    let e5 = chars_of(exts[5]);
    let e6 = chars_of(exts[6]);
    let e7 = chars_of(exts[7]);
    let e8 = chars_of(exts[8]);
    let l = lower.as_slice();
    ends_with(l, e0.as_slice()) || ends_with(l, e1.as_slice()) || ends_with(l, e2.as_slice())
        || ends_with(l, e3.as_slice()) || ends_with(l, e4.as_slice()) || ends_with(
        l,
        e5.as_slice(),
    ) || ends_with(l, e6.as_slice()) || ends_with(l, e7.as_slice()) || ends_with(l, e8.as_slice())
}

/// A child entry that marks a directory as holding configuration.
pub open spec fn is_config_child(name: Seq<char>) -> bool {
    is_config_name(lowercase_of(name)) || (name.len() > 0 && name[0] == '.')
}

/// Whether any of a directory's entry names is a config file or starts with a dot.
pub fn has_config_children(child_names: &[String]) -> (r: bool)
    ensures
        r == exists|i: int| 0 <= i < child_names@.len() && is_config_child(#[trigger] child_names@[i]@),
{
    let mut i: usize = 0;
    while i < child_names.len()
        invariant
            i <= child_names@.len(),
            forall|j: int| 0 <= j < i ==> !is_config_child(#[trigger] child_names@[j]@),
        decreases child_names@.len() - i,
    {
        let name = child_names[i].as_str();
        let c = chars_of(name);
        if is_config_file(name) || (c.len() > 0 && c[0] == '.') {
            return true;
        }
        i = i + 1;
    }
    false
}

/// Confidence that an entry is an application config: 200 for a known dotfile,
/// 150 for a known application (case-insensitive), otherwise 100/50 for a directory
/// with/without config children and 80/10 for a file with/without a config extension.
pub open spec fn score_of(name: Seq<char>, item_type: ItemType, config_children: bool) -> u32 {
    if is_listed(KNOWN_DOTFILES@, name) {
        200
    } else if is_listed(KNOWN_APPS@, lowercase_of(name)) {
        150
    } else {
        match item_type {
            ItemType::Dir => if config_children {
                100
            } else {
                50
            },
            ItemType::File => if is_config_name(lowercase_of(name)) {
                80
            } else {
                10
            },
        }
    }
}

/// Scores an entry (see [`score_of`]); `has_config_children` only matters for a directory.
pub fn score_item(name: &str, item_type: &ItemType, has_config_children: bool) -> (r: u32)
    ensures
        r == score_of(name@, *item_type, has_config_children),
{
    let known_apps = known_apps();
    let known_dotfiles = known_dotfiles();
    let lower = to_lowercase(name);
    if known_dotfiles.contains(name) {
        return 200;
    }
    if known_apps.contains(lower.as_str()) {
        return 150;
    }
    match item_type {
        ItemType::Dir => {
            if has_config_children {
                100
            } else {
                50
            }
        },
        ItemType::File => {
            if is_config_file(name) {
                80
            } else {
                10
            }
        },
    }
}

/// Whether `name` (lowercased) is a folder that never holds configs.
pub fn is_known_non_config(name: &str) -> (r: bool)
    ensures
        r == is_listed(KNOWN_NON_CONFIGS@, lowercase_of(name@)),
{
    let known = known_non_configs();
    let lower = to_lowercase(name);
    known.contains(lower.as_str())
}

/// `name` is ignored: it is one of the patterns, or a `*suffix` pattern matches its end.
pub open spec fn is_ignored(name: Seq<char>, ignored: Seq<Seq<char>>) -> bool {
    ||| ignored.contains(name)
    ||| exists|i: int|
        0 <= i < ignored.len() && (#[trigger] ignored[i]).len() > 0 && ignored[i][0] == '*'
            && has_suffix(name, ignored[i].drop_first())
}

/// Whether `name` matches an ignore pattern (exact name, or `*suffix`).
pub fn matches_ignore(name: &str, ignored: &StrSet) -> (r: bool)
    ensures
        r == is_ignored(name@, ignored@),
{
    if ignored.contains(name) {
        return true;
    }
    let n = chars_of(name);
    let mut i: usize = 0;
    while i < ignored.len()
        invariant
            i <= ignored@.len(),
            n@ == name@,
            forall|j: int|
                0 <= j < i ==> !((#[trigger] ignored@[j]).len() > 0 && ignored@[j][0] == '*'
                    && has_suffix(name@, ignored@[j].drop_first())),
        decreases ignored@.len() - i,
    {
        let p = chars_of(ignored.at(i).as_str());
        if p.len() > 0 && p[0] == '*' {
            let mut suffix = p;
            suffix.remove(0);
            assert(suffix@ == ignored@[i as int].drop_first());
            if ends_with(n.as_slice(), suffix.as_slice()) {
                return true;
            }
        }
        i = i + 1;
    }
    false
}

/// Entries that a scan reports: not `.DS_Store`, not a known non-config folder, not ignored.
pub open spec fn is_reported(name: Seq<char>, ignored: Seq<Seq<char>>) -> bool {
    &&& name != ".DS_Store"@
    &&& !is_listed(KNOWN_NON_CONFIGS@, lowercase_of(name))
    &&& !is_ignored(name, ignored)
}

/// The item a reported entry becomes.
pub open spec fn item_of(e: ListedEntry) -> DiscoveredItem {
    let t = if e.is_dir {
        ItemType::Dir
    } else {
        ItemType::File
    };
    DiscoveredItem {
        path: e.path,
        name: e.name,
        confidence: score_of(e.name@, t, e.has_config_children),
        item_type: t,
    }
}

/// Items for the reported entries of a listing, in listing order.
pub open spec fn discovered(entries: Seq<ListedEntry>, ignored: Seq<Seq<char>>) -> Seq<DiscoveredItem>
    decreases entries.len(),
{
    if entries.len() == 0 {
        Seq::empty()
    } else {
        let prev = discovered(entries.drop_last(), ignored);
        if is_reported(entries.last().name@, ignored) {
            prev.push(item_of(entries.last()))
        } else {
            prev
        }
    }
}

/// Index of the first item with confidence below `c` (or the length).
pub open spec fn first_below(s: Seq<DiscoveredItem>, c: u32) -> int
    decreases s.len(),
{
    if s.len() == 0 {
        0
    } else if s[0].confidence < c {
        0
    } else {
        1 + first_below(s.drop_first(), c)
    }
}

/// Stable ranking by confidence, highest first: each item goes after every earlier
/// item of at least its confidence.
pub open spec fn rank_items(s: Seq<DiscoveredItem>) -> Seq<DiscoveredItem>
    decreases s.len(),
{
    if s.len() == 0 {
        Seq::empty()
    } else {
        let r = rank_items(s.drop_last());
        r.insert(first_below(r, s.last().confidence), s.last())
    }
}

/// Confidences are non-increasing.
pub open spec fn is_ranked_desc(s: Seq<DiscoveredItem>) -> bool {
    forall|i: int, j: int| 0 <= i < j < s.len() ==> (#[trigger] s[i]).confidence >= (
    #[trigger] s[j]).confidence
}

proof fn lemma_first_below(s: Seq<DiscoveredItem>, c: u32)
    ensures
        0 <= first_below(s, c) <= s.len(),
        forall|i: int| 0 <= i < first_below(s, c) ==> (#[trigger] s[i]).confidence >= c,
        first_below(s, c) < s.len() ==> s[first_below(s, c)].confidence < c,
    decreases s.len(),
{
    if s.len() > 0 && s[0].confidence >= c {
        lemma_first_below(s.drop_first(), c);
        assert forall|i: int| 0 <= i < first_below(s, c) implies (#[trigger] s[i]).confidence
            >= c by {
            if i > 0 {
                assert(s[i] == s.drop_first()[i - 1]);
            }
        }
    }
}

/// The ranking is ordered by confidence, highest first, and keeps every item.
pub proof fn lemma_rank_items(s: Seq<DiscoveredItem>)
    ensures
        is_ranked_desc(rank_items(s)),
        rank_items(s).len() == s.len(),
        rank_items(s).to_multiset() == s.to_multiset(),
    decreases s.len(),
{
    broadcast use vstd::multiset::group_multiset_axioms;
    broadcast use vstd::seq_lib::group_to_multiset_ensures;

    if s.len() > 0 {
        let r = rank_items(s.drop_last());
        let x = s.last();
        lemma_rank_items(s.drop_last());
        lemma_first_below(r, x.confidence);
        let p = first_below(r, x.confidence);
        let n = r.insert(p, x);
        assert forall|i: int, j: int| 0 <= i < j < n.len() implies (#[trigger] n[i]).confidence
            >= (#[trigger] n[j]).confidence by {
            if j < p {
                assert(n[i] == r[i] && n[j] == r[j]);
            } else if j == p {
                assert(n[i] == r[i]);
            } else if i < p {
                assert(n[i] == r[i] && n[j] == r[j - 1]);
                assert(r[p].confidence < x.confidence);
                if j - 1 > p {
                    assert(r[p].confidence >= r[j - 1].confidence);
                }
            } else if i == p {
                assert(n[j] == r[j - 1]);
                if j - 1 > p {
                    assert(r[p].confidence >= r[j - 1].confidence);
                }
            } else {
                assert(n[i] == r[i - 1] && n[j] == r[j - 1]);
            }
        }
        r.insert_ensures(p, x);
        assert(s =~= s.drop_last().push(x));
    }
}

/// Inserts `item` into `ranked` after every item of at least its confidence.
fn insert_ranked(ranked: &mut Vec<DiscoveredItem>, item: DiscoveredItem)
    ensures
        final(ranked)@ == old(ranked)@.insert(first_below(old(ranked)@, item.confidence), item),
{
    let c = item.confidence;
    let mut p: usize = 0;
    assert(ranked@.skip(0) =~= ranked@);
    while p < ranked.len() && ranked[p].confidence >= c
        invariant
            p <= ranked@.len(),
            first_below(ranked@, c) == p + first_below(ranked@.skip(p as int), c),
        decreases ranked@.len() - p,
    {
        proof {
            let t = ranked@.skip(p as int);
            assert(t[0] == ranked@[p as int]);
            assert(t.drop_first() =~= ranked@.skip(p + 1));
        }
        p = p + 1;
    }
    proof {
        let t = ranked@.skip(p as int);
        if p < ranked@.len() {
            assert(t[0] == ranked@[p as int]);
        } else {
            assert(t.len() == 0);
        }
    }
    ranked.insert(p, item);
}

/// Turns a directory listing into ranked items: drops `.DS_Store`, known non-config
/// folders and ignored names, scores the rest, and orders them by confidence (highest
/// first, listing order among equals).
pub fn discover_items(entries: Vec<ListedEntry>, ignored: &StrSet) -> (r: Vec<DiscoveredItem>)
    ensures
        r@ == rank_items(discovered(entries@, ignored@)),
{
    let ghost all = entries@;
    let mut entries = entries;
    let mut results: Vec<DiscoveredItem> = Vec::new();
    let mut i: usize = 0;
    let ds_store = chars_of(".DS_Store");
    assert(all.skip(0) =~= all);
    let n0: usize = entries.len();
    assert(all.len() == n0);
    while entries.len() > 0
        invariant
            i + entries@.len() == all.len(),
            all.len() <= usize::MAX,
            entries@ == all.skip(i as int),
            ds_store@ == ".DS_Store"@,
            results@ == rank_items(discovered(all.take(i as int), ignored@)),
        decreases entries@.len(),
    {
        let e = entries.remove(0);
        assert(e == all[i as int]);
        proof {
            assert(all.take(i + 1).drop_last() =~= all.take(i as int));
            assert(all.take(i + 1).last() == all[i as int]);
        }
        let name_chars = chars_of(e.name.as_str());
        let is_ds = crate::text::chars_eq(name_chars.as_slice(), ds_store.as_slice());
        if !is_ds && !is_known_non_config(e.name.as_str()) && !matches_ignore(
            e.name.as_str(),
            ignored,
        ) {
            let item_type = if e.is_dir {
                ItemType::Dir
            } else {
                ItemType::File
            };
            let confidence = score_item(e.name.as_str(), &item_type, e.has_config_children);
            let item = DiscoveredItem { path: e.path, name: e.name, confidence, item_type };
            proof {
                let d = discovered(all.take(i as int), ignored@);
                assert(discovered(all.take(i + 1), ignored@) == d.push(item));
                assert(d.push(item).drop_last() =~= d);
            }
            insert_ranked(&mut results, item);
        } else {
            proof {
                assert(discovered(all.take(i + 1), ignored@) == discovered(
                    all.take(i as int),
                    ignored@,
                ));
            }
        }
        proof {
            assert(all.skip(i as int).drop_first() =~= all.skip(i + 1));
        }
        i = i + 1;
    }
    assert(all.take(i as int) =~= all);
    results
}

impl DiscoveredItem {
    /// A copy of this item.
    pub fn duplicate(&self) -> (r: Self)
        ensures
            r == *self,
    {
        DiscoveredItem { path: self.path.clone(), name: self.name.clone(), confidence: self.confidence, item_type: self.item_type }
    }
}

/// Ranks items by confidence, highest first, keeping the order of items of equal
/// confidence (a stable sort).
pub fn rank(items: Vec<DiscoveredItem>) -> (r: Vec<DiscoveredItem>)
    ensures
        r@ == rank_items(items@),
{
    let ghost all = items@;
    let mut items = items;
    let mut ranked: Vec<DiscoveredItem> = Vec::new();
    let mut i: usize = 0;
    assert(all.skip(0) =~= all);
    let n: usize = items.len();
    while items.len() > 0
        invariant
            i + items@.len() == all.len(),
            all.len() == n,
            items@ == all.skip(i as int),
            ranked@ == rank_items(all.take(i as int)),
        decreases items@.len(),
    {
        let item = items.remove(0);
        proof {
            assert(all.take(i + 1).drop_last() =~= all.take(i as int));
            assert(all.take(i + 1).last() == all[i as int]);
            assert(all.skip(i as int).drop_first() =~= all.skip(i + 1));
        }
        insert_ranked(&mut ranked, item);
        i = i + 1;
    }
    assert(all.take(i as int) =~= all);
    ranked
}

/// A directory to scan, with a modifier added to the confidence of what it yields.
#[derive(Debug, Clone)]
pub struct ScanSource {
    pub path: String,
    /// Modifier applied to the base confidence score from this source.
    /// Negative values penalize configs found in secondary locations.
    pub modifier: i32,
}

impl ScanSource {
    pub fn new(path: String, modifier: i32) -> (r: Self)
        ensures
            r.path == path,
            r.modifier == modifier,
    {
        ScanSource { path, modifier }
    }
}

/// Confidence after a source modifier, saturating at 0 and `u32::MAX`.
pub open spec fn adjusted(c: u32, m: i32) -> u32 {
    if m >= 0 {
        if c + m > u32::MAX {
            u32::MAX
        } else {
            (c + m) as u32
        }
    } else {
        if c + m < 0 {
            0
        } else {
            (c + m) as u32
        }
    }
}

/// Lowest confidence that survives a multi-source scan.
pub const MIN_CONFIDENCE: u32 = 80;

/// Each scanned item paired with the modifier of its source, sources in order.
pub open spec fn tagged(mods: Seq<i32>, lists: Seq<Seq<DiscoveredItem>>) -> Seq<(i32, DiscoveredItem)>
    decreases lists.len(),
{
    if lists.len() == 0 || mods.len() < lists.len() {
        Seq::empty()
    } else {
        tagged(mods, lists.drop_last()) + lists.last().map_values(
            |it: DiscoveredItem| (mods[lists.len() - 1], it),
        )
    }
}

/// Keeps the first item of each path, with its source modifier applied, when the
/// result reaches [`MIN_CONFIDENCE`].
pub open spec fn select_items(t: Seq<(i32, DiscoveredItem)>) -> Seq<DiscoveredItem>
    decreases t.len(),
{
    if t.len() == 0 {
        Seq::empty()
    } else {
        let prev = select_items(t.drop_last());
        let (m, it) = t.last();
        let seen = exists|j: int| 0 <= j < t.len() - 1 && (#[trigger] t[j]).1.path@ == it.path@;
        let c = adjusted(it.confidence, m);
        if !seen && c >= MIN_CONFIDENCE {
            prev.push(DiscoveredItem { confidence: c, ..it })
        } else {
            prev
        }
    }
}

/// What one source yields: nothing when it is missing, else its ranked items.
pub open spec fn source_items(listing: Option<Vec<ListedEntry>>, ignored: Seq<Seq<char>>) -> Seq<
    DiscoveredItem,
> {
    match listing {
        None => Seq::empty(),
        Some(l) => rank_items(discovered(l@, ignored)),
    }
}

/// Scans several sources: `listings[i]` is the listing of `sources[i].path` (`None` when
/// the directory does not exist). Each source is ranked on its own; then the first item
/// of each path is kept, its source modifier applied, items below [`MIN_CONFIDENCE`]
/// dropped, and the whole ranked by confidence.
pub fn scan_sources(
    sources: &[ScanSource],
    listings: Vec<Option<Vec<ListedEntry>>>,
    ignored: &StrSet,
) -> (r: Vec<DiscoveredItem>)
    requires
        listings@.len() == sources@.len(),
        forall|i: int| 0 <= i < sources@.len() ==> (#[trigger] sources@[i]).modifier > i32::MIN,
    ensures
        r@ == rank_items(
            select_items(
                tagged(
                    sources@.map_values(|s: ScanSource| s.modifier),
                    listings@.map_values(|l: Option<Vec<ListedEntry>>| source_items(l, ignored@)),
                ),
            ),
        ),
{
    let ghost mods = sources@.map_values(|s: ScanSource| s.modifier);
    let ghost lists = listings@.map_values(
        |l: Option<Vec<ListedEntry>>| source_items(l, ignored@),
    );
    let ghost all_listings = listings@;
    let mut listings = listings;
    let mut seen = StrSet::new();
    let mut selected: Vec<DiscoveredItem> = Vec::new();
    let mut s: usize = 0;
    assert(all_listings.skip(0) =~= all_listings);
    let n0: usize = listings.len();
    assert(all_listings.len() == n0);
    assert(lists.take(0) =~= Seq::<Seq<DiscoveredItem>>::empty());
    while listings.len() > 0
        invariant
            s + listings@.len() == all_listings.len(),
            all_listings.len() <= usize::MAX,
            all_listings.len() == sources@.len(),
            listings@ == all_listings.skip(s as int),
            mods == sources@.map_values(|s: ScanSource| s.modifier),
            lists == all_listings.map_values(|l: Option<Vec<ListedEntry>>| source_items(l, ignored@)),
            forall|i: int| 0 <= i < sources@.len() ==> (#[trigger] sources@[i]).modifier > i32::MIN,
            selected@ == select_items(tagged(mods, lists.take(s as int))),
            forall|p: Seq<char>|
                #[trigger] seen@.contains(p) == exists|j: int|
                    0 <= j < tagged(mods, lists.take(s as int)).len() && (#[trigger] tagged(
                        mods,
                        lists.take(s as int),
                    )[j]).1.path@ == p,
        decreases listings@.len(),
    {
        let listing = listings.remove(0);
        assert(listing == all_listings[s as int]);
        let items = match listing {
            None => Vec::new(),
            Some(l) => discover_items(l, ignored),
        };
        assert(items@ == lists[s as int]);
        let modifier = sources[s].modifier;
        let ghost before = tagged(mods, lists.take(s as int));
        proof {
            assert(lists.take(s + 1).drop_last() =~= lists.take(s as int));
            assert(lists.take(s + 1).last() == lists[s as int]);
        }
        let ghost after = tagged(mods, lists.take(s + 1));
        assert(after == before + items@.map_values(|it: DiscoveredItem| (modifier, it)));
        let mut items = items;
        let mut k: usize = 0;
        let ghost all_items = items@;
        proof {
            assert(all_items.skip(0) =~= all_items);
            assert(after.take(before.len() as int) =~= before);
            let n1: usize = items.len();
            assert(all_items.len() == n1);
            assert forall|j: int| 0 <= j < before.len() implies #[trigger] after[j] == before[j] by {}
        }
        while items.len() > 0
            invariant
                k + items@.len() == all_items.len(),
                all_items.len() <= usize::MAX,
                items@ == all_items.skip(k as int),
                after == before + all_items.map_values(|it: DiscoveredItem| (modifier, it)),
                modifier > i32::MIN,
                selected@ == select_items(after.take(before.len() + k)),
                forall|p: Seq<char>|
                    #[trigger] seen@.contains(p) == exists|j: int|
                        0 <= j < before.len() + k && (#[trigger] after[j]).1.path@ == p,
            decreases items@.len(),
        {
            let item = items.remove(0);
            let ghost idx = before.len() + k;
            assert(after[idx] == (modifier, item)) by {
                assert(all_items[k as int] == item);
            }
            proof {
                assert(after.take(idx + 1).drop_last() =~= after.take(idx));
                assert(after.take(idx + 1).last() == after[idx]);
                assert forall|j: int| 0 <= j < idx implies #[trigger] after.take(idx + 1)[j]
                    == after[j] by {}
            }
            let fresh = seen.insert(item.path.clone());
            proof {
                assert(fresh == !exists|j: int| 0 <= j < idx && (#[trigger] after[j]).1.path@ == item.path@);
            }
            let ghost t = after.take(idx + 1);
            let ghost prev_sel = selected@;
            let ghost orig = item;
            if fresh {
                let c = item.confidence;
                let adjusted_c = if modifier >= 0 {
                    c.saturating_add(modifier as u32)
                } else {
                    c.saturating_sub((-modifier) as u32)
                };
                assert(adjusted_c == adjusted(c, modifier));
                if adjusted_c >= MIN_CONFIDENCE {
                    let mut item = item;
                    item.confidence = adjusted_c;
                    assert(item == DiscoveredItem { confidence: adjusted_c, ..orig });
                    selected.push(item);
                }
            }
            proof {
                assert(t.drop_last() =~= after.take(idx));
                assert(t.last() == (modifier, orig));
                assert(prev_sel == select_items(t.drop_last()));
                let seen_t = exists|j: int| 0 <= j < t.len() - 1 && (#[trigger] t[j]).1.path@ == orig.path@;
                if seen_t {
                    let j = choose|j: int| 0 <= j < t.len() - 1 && (#[trigger] t[j]).1.path@ == orig.path@;
                    assert(t[j] == after[j]);
                }
                if !fresh {
                    let j = choose|j: int| 0 <= j < idx && (#[trigger] after[j]).1.path@ == orig.path@;
                    assert(t[j] == after[j]);
                }
                assert(seen_t == !fresh);
            }
            proof {
                assert(all_items.skip(k as int).drop_first() =~= all_items.skip(k + 1));
            }
            k = k + 1;
        }
        proof {
            assert(after.take(before.len() + k) =~= after);
            assert(all_listings.skip(s as int).drop_first() =~= all_listings.skip(s + 1));
        }
        s = s + 1;
    }
    assert(lists.take(s as int) =~= lists);
    let mut ranked: Vec<DiscoveredItem> = Vec::new();
    let ghost sel = selected@;
    let mut selected = selected;
    let mut i: usize = 0;
    assert(sel.skip(0) =~= sel);
    let n2: usize = selected.len();
    assert(sel.len() == n2);
    while selected.len() > 0
        invariant
            i + selected@.len() == sel.len(),
            sel.len() <= usize::MAX,
            selected@ == sel.skip(i as int),
            ranked@ == rank_items(sel.take(i as int)),
        decreases selected@.len(),
    {
        let item = selected.remove(0);
        proof {
            assert(sel.take(i + 1).drop_last() =~= sel.take(i as int));
            assert(sel.take(i + 1).last() == sel[i as int]);
            assert(sel.skip(i as int).drop_first() =~= sel.skip(i + 1));
        }
        insert_ranked(&mut ranked, item);
        i = i + 1;
    }
    assert(sel.take(i as int) =~= sel);
    ranked
}

/// The sources scanned by default: `~/.config` and `~` as they are, then
/// `~/Library/Application Support`, `~/.local/bin` and `~/.ssh` penalized by 50.
pub fn default_scan_sources(home: &str) -> (r: Vec<ScanSource>)
    ensures
        r@.len() == 5,
        r@[0].path@ == path_join(home@, ".config"@) && r@[0].modifier == 0,
        r@[1].path@ == home@ && r@[1].modifier == 0,
        r@[2].path@ == path_join(home@, "Library/Application Support"@) && r@[2].modifier == -50,
        r@[3].path@ == path_join(home@, ".local/bin"@) && r@[3].modifier == -50,
        r@[4].path@ == path_join(home@, ".ssh"@) && r@[4].modifier == -50,
{
    let mut sources: Vec<ScanSource> = Vec::new();
    sources.push(ScanSource::new(join(home, ".config"), 0));
    sources.push(ScanSource::new(crate::text::string_from_chars(chars_of(home).as_slice()), 0));
    sources.push(ScanSource::new(join(home, "Library/Application Support"), -50));
    sources.push(ScanSource::new(join(home, ".local/bin"), -50));
    sources.push(ScanSource::new(join(home, ".ssh"), -50));
    sources
}

/// `a` lists before `b` in a browser column: directories first, then by name.
pub open spec fn lists_before(a: ListedEntry, b: ListedEntry) -> bool {
    ||| (a.is_dir && !b.is_dir)
    ||| (a.is_dir == b.is_dir && text_lt(a.name@, b.name@))
}

/// Where `x` goes in the ordered `r`: after every entry it does not list before.
pub open spec fn listing_pos(r: Seq<ListedEntry>, x: ListedEntry) -> int
    decreases r.len(),
{
    if r.len() == 0 {
        0
    } else if lists_before(x, r[0]) {
        0
    } else {
        1 + listing_pos(r.drop_first(), x)
    }
}

/// The entries as a browser column lists them: directories first, then by name (entries
/// that compare equal keep their order).
pub open spec fn browse_order(s: Seq<ListedEntry>) -> Seq<ListedEntry>
    decreases s.len(),
{
    if s.len() == 0 {
        Seq::empty()
    } else {
        let r = browse_order(s.drop_last());
        r.insert(listing_pos(r, s.last()), s.last())
    }
}

/// No entry lists before one that comes earlier.
pub open spec fn in_browse_order(s: Seq<ListedEntry>) -> bool {
    forall|i: int, j: int| 0 <= i < j < s.len() ==> !lists_before(#[trigger] s[j], #[trigger] s[i])
}

proof fn lemma_lists_before_order(a: ListedEntry, b: ListedEntry, c: ListedEntry)
    ensures
        !lists_before(a, a),
        lists_before(a, b) && lists_before(b, c) ==> lists_before(a, c),
{
    lemma_text_lt_irreflexive(a.name@);
    if a.is_dir == b.is_dir && b.is_dir == c.is_dir && text_lt(a.name@, b.name@) && text_lt(b.name@, c.name@) {
        lemma_text_lt_transitive(a.name@, b.name@, c.name@);
    }
}

proof fn lemma_listing_pos(r: Seq<ListedEntry>, x: ListedEntry)
    ensures
        0 <= listing_pos(r, x) <= r.len(),
        forall|i: int| 0 <= i < listing_pos(r, x) ==> !lists_before(x, #[trigger] r[i]),
        listing_pos(r, x) < r.len() ==> lists_before(x, r[listing_pos(r, x)]),
    decreases r.len(),
{
    if r.len() > 0 && !lists_before(x, r[0]) {
        lemma_listing_pos(r.drop_first(), x);
        assert forall|i: int| 0 <= i < listing_pos(r, x) implies !lists_before(x, #[trigger] r[i]) by {
            if i > 0 {
                assert(r[i] == r.drop_first()[i - 1]);
            }
        }
        if listing_pos(r, x) < r.len() {
            assert(r[listing_pos(r, x)] == r.drop_first()[listing_pos(r, x) - 1]);
        }
    }
}

/// The browser order is sorted and holds the same entries.
pub proof fn lemma_browse_order(s: Seq<ListedEntry>)
    ensures
        in_browse_order(browse_order(s)),
        browse_order(s).len() == s.len(),
        browse_order(s).to_multiset() == s.to_multiset(),
    decreases s.len(),
{
    broadcast use vstd::multiset::group_multiset_axioms;
    broadcast use vstd::seq_lib::group_to_multiset_ensures;

    if s.len() > 0 {
        let r = browse_order(s.drop_last());
        let x = s.last();
        lemma_browse_order(s.drop_last());
        lemma_listing_pos(r, x);
        let p = listing_pos(r, x);
        let n = r.insert(p, x);
        assert forall|i: int, j: int| 0 <= i < j < n.len() implies !lists_before(#[trigger] n[j], #[trigger] n[i]) by {
            if j < p {
                assert(n[i] == r[i] && n[j] == r[j]);
            } else if j == p {
                assert(n[i] == r[i]);
            } else if i < p {
                assert(n[i] == r[i] && n[j] == r[j - 1]);
                lemma_lists_before_order(r[j - 1], x, r[p]);
                if j - 1 > p {
                    lemma_lists_before_order(r[j - 1], r[i], r[p]);
                    lemma_lists_before_order(r[i], x, r[p]);
                    lemma_lists_before_order(r[j - 1], r[i], x);
                } else {
                    lemma_lists_before_order(r[p], r[i], x);
                    lemma_lists_before_order(x, r[p], r[i]);
                }
            } else if i == p {
                assert(n[j] == r[j - 1]);
                lemma_lists_before_order(x, r[p], x);
                if j - 1 > p {
                    lemma_lists_before_order(r[j - 1], x, r[p]);
                } else {
                    lemma_lists_before_order(r[p], x, r[p]);
                }
            } else {
                assert(n[i] == r[i - 1] && n[j] == r[j - 1]);
            }
        }
        r.insert_ensures(p, x);
        assert(s =~= s.drop_last().push(x));
        vstd::seq_lib::lemma_multiset_commutative(s.drop_last(), seq![x]);
    }
}

fn entry_lists_before(a: &ListedEntry, b: &ListedEntry) -> (r: bool)
    ensures
        r == lists_before(*a, *b),
{
    if a.is_dir != b.is_dir {
        a.is_dir
    } else {
        let ca = chars_of(a.name.as_str());
        let cb = chars_of(b.name.as_str());
        text_order(ca.as_slice(), cb.as_slice()) == TextOrder::Before
    }
}

/// Orders a directory's entries as a browser column lists them (see [`browse_order`]).
pub fn order_for_browsing(entries: Vec<ListedEntry>) -> (r: Vec<ListedEntry>)
    ensures
        r@ == browse_order(entries@),
        in_browse_order(r@),
        r@.to_multiset() == entries@.to_multiset(),
{
    let ghost all = entries@;
    let n0: usize = entries.len();
    let mut rest = entries;
    let mut out: Vec<ListedEntry> = Vec::new();
    let mut i: usize = 0;
    assert(all.skip(0) =~= all);
    while rest.len() > 0
        invariant
            all.len() == n0,
            i + rest@.len() == all.len(),
            rest@ == all.skip(i as int),
            out@ == browse_order(all.take(i as int)),
        decreases rest@.len(),
    {
        let x = rest.remove(0);
        assert(x == all[i as int]);
        proof {
            assert(all.take(i + 1).drop_last() =~= all.take(i as int));
            assert(all.take(i + 1).last() == all[i as int]);
            assert(rest@ =~= all.skip(i + 1));
        }
        let mut p: usize = 0;
        assert(out@.skip(0) =~= out@);
        while p < out.len() && !entry_lists_before(&x, &out[p])
            invariant
                p <= out@.len(),
                listing_pos(out@, x) == p + listing_pos(out@.skip(p as int), x),
            decreases out@.len() - p,
        {
            assert(out@.skip(p as int)[0] == out@[p as int]);
            assert(out@.skip(p as int).drop_first() =~= out@.skip(p + 1));
            p = p + 1;
        }
        proof {
            if p < out@.len() {
                assert(out@.skip(p as int)[0] == out@[p as int]);
            } else {
                assert(out@.skip(p as int).len() == 0);
            }
        }
        out.insert(p, x);
        i = i + 1;
    }
    proof {
        assert(all.take(i as int) =~= all);
        lemma_browse_order(all);
    }
    out
}

/// A file that is no known dotfile or application scores 80 when its lowercased name ends
/// in `.toml`, `.yaml`, `.yml`, `.json`, `.conf`, `.ini`, `.cfg`, `.rc` or `.xml`, and 10
/// otherwise; so such a file reaches [`MIN_CONFIDENCE`], and any other file does not.
pub proof fn lemma_file_score(name: Seq<char>, config_children: bool)
    requires
        !is_listed(KNOWN_DOTFILES@, name),
        !is_listed(KNOWN_APPS@, lowercase_of(name)),
    ensures
        ({
            let l = lowercase_of(name);
            let ext = has_suffix(l, ".toml"@) || has_suffix(l, ".yaml"@) || has_suffix(l, ".yml"@) || has_suffix(
                l,
                ".json"@,
            ) || has_suffix(l, ".conf"@) || has_suffix(l, ".ini"@) || has_suffix(l, ".cfg"@) || has_suffix(l, ".rc"@)
                || has_suffix(l, ".xml"@);
            &&& score_of(name, ItemType::File, config_children) == (if ext {
                80u32
            } else {
                10u32
            })
            &&& ext <==> score_of(name, ItemType::File, config_children) >= MIN_CONFIDENCE
        }),
{
}

} // verus!
