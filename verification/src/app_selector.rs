//! The first-run app selector: which discovered items start selected, what each key does
//! to the selection, the search and the browser, and which items a confirmed selection
//! hands back. The event loop draws the state, reads the keys and lists the directories
//! that the browser opens.
use vstd::prelude::*;

use crate::scanner::{rank, rank_items, DiscoveredItem, ItemType, ListedEntry};
use crate::text::{concat, decimal, decimal_of, lowercase_of};
use crate::tui::confirm::{ConfirmAction, ConfirmDialog, DialogColor};
use crate::tui::main_view::keys::Key;
use crate::tui::search::{all_unscored, filter_result, lowered, FuzzyEngine, FuzzyMatch, MAX_CANDIDATE_LEN};
use crate::tui::state::MillerState;

verus! {

/// Result from the selection interface.
pub enum TuiResult {
    /// User confirmed with selections.
    Selected(Vec<DiscoveredItem>),
    /// User aborted (Esc, q, or Ctrl+C). No state should be saved.
    Aborted,
}

/// Items at least this confident start selected when auto-selection is on.
pub const AUTO_SELECT_CONFIDENCE: u32 = 150;

/// The scan results as the selector lists them (ranked by confidence, highest first, ties
/// in scan order), and for each whether it starts selected.
pub fn initial_selection(items: Vec<DiscoveredItem>, auto_select: bool) -> (r: (Vec<DiscoveredItem>, Vec<bool>))
    ensures
        r.0@ == rank_items(items@),
        r.1@.len() == r.0@.len(),
        forall|i: int| 0 <= i < r.1@.len() ==> #[trigger] r.1@[i] == (auto_select && r.0@[i].confidence >= AUTO_SELECT_CONFIDENCE),
{
    let ranked = rank(items);
    let mut selected: Vec<bool> = Vec::new();
    let mut i: usize = 0;
    while i < ranked.len()
        invariant
            i <= ranked@.len(),
            selected@.len() == i,
            forall|k: int| 0 <= k < i ==> #[trigger] selected@[k] == (auto_select && ranked@[k].confidence >= AUTO_SELECT_CONFIDENCE),
        decreases ranked@.len() - i,
    {
        selected.push(auto_select && ranked[i].confidence >= AUTO_SELECT_CONFIDENCE);
        i = i + 1;
    }
    (ranked, selected)
}

/// A path picked in the free browser: its path, file name and whether it is a directory.
pub struct BrowsedPath {
    pub path: String,
    pub name: String,
    pub is_dir: bool,
}

/// Whether an item with `path` comes earlier in `s`.
pub open spec fn seen_path(s: Seq<DiscoveredItem>, path: Seq<char>) -> bool {
    exists|i: int| 0 <= i < s.len() && (#[trigger] s[i]).path@ == path
}

/// The item a browsed path stands for (confidence 0).
pub open spec fn browsed_item(b: BrowsedPath, item: DiscoveredItem) -> bool {
    &&& item.path == b.path
    &&& item.name == b.name
    &&& item.confidence == 0
    &&& item.item_type == if b.is_dir { ItemType::Dir } else { ItemType::File }
}

/// `x` is one of the selected scan results.
pub open spec fn from_selected(items: Seq<DiscoveredItem>, selected: Seq<bool>, x: DiscoveredItem) -> bool {
    exists|i: int| 0 <= i < items.len() && i < selected.len() && selected[i] && #[trigger] items[i] == x
}

/// `x` stands for one of the browsed paths.
pub open spec fn from_browsed(browsed: Seq<BrowsedPath>, x: DiscoveredItem) -> bool {
    exists|i: int| 0 <= i < browsed.len() && browsed_item(#[trigger] browsed[i], x)
}

/// The confirmed selection: the selected scan results in list order, then the paths picked
/// in the browser, each path once (its first occurrence).
pub open spec fn selection_ok(r: Seq<DiscoveredItem>, items: Seq<DiscoveredItem>, selected: Seq<bool>, browsed: Seq<BrowsedPath>) -> bool {
    &&& forall|i: int, j: int| 0 <= i < j < r.len() ==> (#[trigger] r[i]).path@ != (#[trigger] r[j]).path@
    &&& forall|i: int| 0 <= i < items.len() && i < selected.len() && selected[i] ==> seen_path(r, #[trigger] items[i].path@)
    &&& forall|i: int| 0 <= i < browsed.len() ==> seen_path(r, #[trigger] browsed[i].path@)
    &&& forall|k: int| 0 <= k < r.len() ==> from_selected(items, selected, #[trigger] r[k]) || from_browsed(browsed, r[k])
}

/// The selected scan results among the first `n` items, in list order, each path once
/// (its first occurrence).
pub open spec fn pick_selected(items: Seq<DiscoveredItem>, selected: Seq<bool>, n: int) -> Seq<DiscoveredItem>
    decreases n,
{
    if n <= 0 {
        Seq::empty()
    } else {
        let prev = pick_selected(items, selected, n - 1);
        let i = n - 1;
        if i < selected.len() && selected[i] && !seen_path(prev, items[i].path@) {
            prev.push(items[i])
        } else {
            prev
        }
    }
}

/// The item a browsed path stands for.
pub open spec fn item_of(b: BrowsedPath) -> DiscoveredItem {
    DiscoveredItem {
        path: b.path,
        name: b.name,
        confidence: 0,
        item_type: if b.is_dir {
            ItemType::Dir
        } else {
            ItemType::File
        },
    }
}

/// `start` followed by the first `n` browsed paths, in order, each path once.
pub open spec fn pick_browsed(start: Seq<DiscoveredItem>, browsed: Seq<BrowsedPath>, n: int) -> Seq<DiscoveredItem>
    decreases n,
{
    if n <= 0 {
        start
    } else {
        let prev = pick_browsed(start, browsed, n - 1);
        if !seen_path(prev, browsed[n - 1].path@) {
            prev.push(item_of(browsed[n - 1]))
        } else {
            prev
        }
    }
}

/// The items that a confirmed selection hands back: the selected scan results in list
/// order, then the browsed paths in the order they were picked, each path once.
pub fn selected_items(items: &[DiscoveredItem], selected: &[bool], browsed: &[BrowsedPath]) -> (r: Vec<DiscoveredItem>)
    ensures
        r@ == pick_browsed(pick_selected(items@, selected@, items@.len() as int), browsed@, browsed@.len() as int),
        selection_ok(r@, items@, selected@, browsed@),
{
    let mut out: Vec<DiscoveredItem> = Vec::new();
    let mut i: usize = 0;
    while i < items.len()
        invariant
            i <= items@.len(),
            forall|a: int, b: int| 0 <= a < b < out@.len() ==> (#[trigger] out@[a]).path@ != (#[trigger] out@[b]).path@,
            forall|a: int| 0 <= a < i && a < selected@.len() && selected@[a] ==> seen_path(out@, #[trigger] items@[a].path@),
            forall|k: int| 0 <= k < out@.len() ==> from_selected(items@, selected@, #[trigger] out@[k]),
            out@ == pick_selected(items@, selected@, i as int),
        decreases items@.len() - i,
    {
        let ghost before = out@;
        if i < selected.len() && selected[i] {
            if !has_path(&out, items[i].path.as_str()) {
                out.push(items[i].duplicate());
                proof {
                    lemma_seen_push(before, items@[i as int]);
                    assert(out@ == before.push(items@[i as int]));
                    assert forall|k: int| 0 <= k < out@.len() implies from_selected(items@, selected@, #[trigger] out@[k]) by {
                        if k < before.len() {
                            assert(out@[k] == before[k]);
                        } else {
                            assert(items@[i as int] == out@[k]);
                        }
                    }
                }
            }
        }
        i = i + 1;
    }
    let ghost first = out@;
    let mut j: usize = 0;
    while j < browsed.len()
        invariant
            out@ == pick_browsed(first, browsed@, j as int),
            j <= browsed@.len(),
            forall|a: int, b: int| 0 <= a < b < out@.len() ==> (#[trigger] out@[a]).path@ != (#[trigger] out@[b]).path@,
            forall|a: int| 0 <= a < items@.len() && a < selected@.len() && selected@[a] ==> seen_path(out@, #[trigger] items@[a].path@),
            forall|a: int| 0 <= a < j ==> seen_path(out@, #[trigger] browsed@[a].path@),
            forall|k: int| 0 <= k < out@.len() ==> from_selected(items@, selected@, #[trigger] out@[k]) || from_browsed(browsed@, out@[k]),
        decreases browsed@.len() - j,
    {
        let b = &browsed[j];
        if !has_path(&out, b.path.as_str()) {
            let item = DiscoveredItem {
                path: b.path.clone(),
                name: b.name.clone(),
                confidence: 0,
                item_type: if b.is_dir {
                    ItemType::Dir
                } else {
                    ItemType::File
                },
            };
            let ghost before = out@;
            out.push(item);
            proof {
                assert(item == item_of(browsed@[j as int]));
                lemma_seen_push(before, item);
                assert(browsed_item(browsed@[j as int], out@[out@.len() - 1]));
                assert forall|k: int| 0 <= k < out@.len() implies from_selected(items@, selected@, #[trigger] out@[k]) || from_browsed(browsed@, out@[k]) by {
                    if k < before.len() {
                        assert(out@[k] == before[k]);
                    } else {
                        assert(browsed_item(browsed@[j as int], out@[k]));
                    }
                }
            }
        }
        j = j + 1;
    }
    out
}

proof fn lemma_seen_push(s: Seq<DiscoveredItem>, x: DiscoveredItem)
    ensures
        forall|p: Seq<char>| seen_path(s, p) ==> #[trigger] seen_path(s.push(x), p),
        seen_path(s.push(x), x.path@),
{
    assert forall|p: Seq<char>| seen_path(s, p) implies #[trigger] seen_path(s.push(x), p) by {
        let i = choose|i: int| 0 <= i < s.len() && (#[trigger] s[i]).path@ == p;
        assert(s.push(x)[i] == s[i]);
    }
    assert(s.push(x)[s.len() as int] == x);
}

fn has_path(s: &Vec<DiscoveredItem>, path: &str) -> (r: bool)
    ensures
        r == seen_path(s@, path@),
{
    let mut i: usize = 0;
    while i < s.len()
        invariant
            i <= s@.len(),
            forall|k: int| 0 <= k < i ==> (#[trigger] s@[k]).path@ != path@,
        decreases s@.len() - i,
    {
        if crate::text::str_eq(s[i].path.as_str(), path) {
            return true;
        }
        i = i + 1;
    }
    false
}


// ------------------------------------------------------------------
// The selector's state and what each key does to it
// ------------------------------------------------------------------

/// The selector's two tabs.
#[derive(Debug, Clone, Copy, PartialEq, Eq, Structural)]
pub enum SelectorTab {
    ScanResults,
    Browse,
}

/// Everything the selector shows: the ranked scan results with their ticks, the browser
/// with the paths picked in it, the search, and the overlays.
pub struct SelectorState {
    pub tab: SelectorTab,
    pub scan_items: Vec<DiscoveredItem>,
    /// Whether each scan result is ticked.
    pub selected: Vec<bool>,
    pub scan_cursor: usize,
    pub browser: MillerState<ListedEntry>,
    /// The paths ticked in the browser (ticking a scan result ticks its path too).
    pub browsed: Vec<BrowsedPath>,
    /// While a search filters the browser: the listing indices shown, in match order.
    pub browse_filter: Option<Vec<usize>>,
    /// The cursor among the filtered entries.
    pub filtered_cursor: usize,
    pub search: FuzzyEngine,
    /// Keys go to the search box.
    pub in_search: bool,
    /// The scan cursor as it was when the search opened; clearing the search returns to it.
    pub pre_search_scan_cursor: usize,
    pub confirm: Option<ConfirmDialog>,
    pub help_visible: bool,
    pub help_scroll: usize,
    pub help_search: FuzzyEngine,
}

/// No two browsed paths are the same.
pub open spec fn distinct_paths(b: Seq<BrowsedPath>) -> bool {
    forall|i: int, j: int| 0 <= i < j < b.len() ==> (#[trigger] b[i]).path@ != (#[trigger] b[j]).path@
}

impl SelectorState {
    /// One tick per scan result, each browsed path once, and a well-formed browser.
    pub open spec fn wf(&self) -> bool {
        &&& self.selected@.len() == self.scan_items@.len()
        &&& distinct_paths(self.browsed@)
        &&& self.browser.wf()
    }
}

/// The names of the scan results.
pub open spec fn scan_names(items: Seq<DiscoveredItem>) -> Seq<Seq<char>> {
    items.map_values(|it: DiscoveredItem| it.name@)
}

/// The names of a browser listing.
pub open spec fn listing_names(l: Seq<ListedEntry>) -> Seq<Seq<char>> {
    l.map_values(|e: ListedEntry| e.name@)
}

/// Every name is short enough, once lowercased, for its score to fit.
pub open spec fn short_names(names: Seq<Seq<char>>) -> bool {
    forall|i: int| 0 <= i < names.len() ==> (#[trigger] lowercase_of(names[i])).len() < MAX_CANDIDATE_LEN
}

/// `f` is an engine with query `q0`, matches `m0` and cursor `c0` filtered over `names`
/// (unchanged where a name is too long to score).
pub open spec fn refilter_from(q0: Seq<char>, m0: Seq<FuzzyMatch>, c0: nat, names: Seq<Seq<char>>, f: FuzzyEngine) -> bool {
    let q = lowercase_of(q0);
    &&& f.query_spec() == q0
    &&& if short_names(names) {
        &&& f.wf()
        &&& q.len() == 0 ==> all_unscored(names.len() as int, f.matches_spec()) && f.cursor_spec() == 0
        &&& q.len() > 0 ==> {
            &&& filter_result(q, names.map_values(|n: Seq<char>| lowercase_of(n)), f.matches_spec())
            &&& f.cursor_spec() == if f.matches_spec().len() == 0 {
                0
            } else if c0 >= f.matches_spec().len() {
                (f.matches_spec().len() - 1) as nat
            } else {
                c0
            }
        }
    } else {
        f.matches_spec() == m0 && f.cursor_spec() == c0
    }
}

/// `f` is the engine `e` filtered over `names`.
pub open spec fn refilter_ok(e: FuzzyEngine, names: Seq<Seq<char>>, f: FuzzyEngine) -> bool {
    refilter_from(e.query_spec(), e.matches_spec(), e.cursor_spec(), names, f)
}

/// The candidate index of the match under the engine's cursor.
pub open spec fn engine_selected(e: FuzzyEngine) -> Option<usize> {
    if e.cursor_spec() < e.matches_spec().len() {
        Some(e.matches_spec()[e.cursor_spec() as int].index)
    } else {
        None
    }
}

/// Filters `engine` over `names`.
fn refilter(engine: &mut FuzzyEngine, names: &[&str])
    ensures
        refilter_ok(*old(engine), names@.map_values(|s: &str| s@), *final(engine)),
{
    let ghost ns = names@.map_values(|s: &str| s@);
    assert(lowered(names@) =~= ns.map_values(|n: Seq<char>| lowercase_of(n)));
    let ok = engine.filter_checked(names);
    proof {
        if short_names(ns) {
            assert forall|i: int| 0 <= i < names@.len() implies (#[trigger] lowercase_of(names@[i]@)).len() < MAX_CANDIDATE_LEN by {
                assert(ns[i] == names@[i]@);
            }
        } else {
            let i = choose|i: int| 0 <= i < ns.len() && !((#[trigger] lowercase_of(ns[i])).len() < MAX_CANDIDATE_LEN);
            assert(ns[i] == names@[i]@);
        }
    }
}

/// The names of the scan results, borrowed.
fn scan_name_refs(items: &Vec<DiscoveredItem>) -> (r: Vec<&str>)
    ensures
        r@.map_values(|s: &str| s@) == scan_names(items@),
{
    let mut out: Vec<&str> = Vec::new();
    let mut i: usize = 0;
    while i < items.len()
        invariant
            i <= items@.len(),
            out@.len() == i,
            forall|k: int| 0 <= k < i ==> (#[trigger] out@[k])@ == items@[k].name@,
        decreases items@.len() - i,
    {
        out.push(items[i].name.as_str());
        i = i + 1;
    }
    assert(out@.map_values(|s: &str| s@) =~= scan_names(items@));
    out
}

/// The names of a listing, borrowed.
fn listing_name_refs(l: &[ListedEntry]) -> (r: Vec<&str>)
    ensures
        r@.map_values(|s: &str| s@) == listing_names(l@),
{
    let mut out: Vec<&str> = Vec::new();
    let mut i: usize = 0;
    while i < l.len()
        invariant
            i <= l@.len(),
            out@.len() == i,
            forall|k: int| 0 <= k < i ==> (#[trigger] out@[k])@ == l@[k].name@,
        decreases l@.len() - i,
    {
        out.push(l[i].name.as_str());
        i = i + 1;
    }
    assert(out@.map_values(|s: &str| s@) =~= listing_names(l@));
    out
}

/// The browsed path a scan result ticks.
pub open spec fn browsed_of(item: DiscoveredItem) -> BrowsedPath {
    BrowsedPath { path: item.path, name: item.name, is_dir: item.item_type == ItemType::Dir }
}

/// The browsed path an entry of the browser ticks.
pub open spec fn browsed_of_entry(e: ListedEntry) -> BrowsedPath {
    BrowsedPath { path: e.path, name: e.name, is_dir: e.is_dir }
}

/// The paths of the ticked scan results among the first `n`, in list order, each once.
pub open spec fn ticked_paths(items: Seq<DiscoveredItem>, selected: Seq<bool>, n: int) -> Seq<BrowsedPath>
    decreases n,
{
    if n <= 0 {
        Seq::empty()
    } else {
        let prev = ticked_paths(items, selected, n - 1);
        if n - 1 < selected.len() && selected[n - 1] && !has_browsed(prev, items[n - 1].path@) {
            prev.push(browsed_of(items[n - 1]))
        } else {
            prev
        }
    }
}

/// Some browsed path is `p`.
pub open spec fn has_browsed(b: Seq<BrowsedPath>, p: Seq<char>) -> bool {
    exists|i: int| 0 <= i < b.len() && (#[trigger] b[i]).path@ == p
}

/// `b` with `entry`'s path ticked if it was not, and unticked if it was.
pub open spec fn toggled_path(b: Seq<BrowsedPath>, entry: BrowsedPath, r: Seq<BrowsedPath>) -> bool {
    if has_browsed(b, entry.path@) {
        exists|i: int| 0 <= i < b.len() && (#[trigger] b[i]).path@ == entry.path@ && r == b.remove(i)
    } else {
        r == b.push(entry)
    }
}

/// `r` is `b` with `p` unticked (unchanged when `p` was not ticked).
pub open spec fn unticked(b: Seq<BrowsedPath>, p: Seq<char>, r: Seq<BrowsedPath>) -> bool {
    if has_browsed(b, p) {
        exists|i: int| 0 <= i < b.len() && (#[trigger] b[i]).path@ == p && r == b.remove(i)
    } else {
        r == b
    }
}

/// `r` is `b` with `entry`'s path ticked (unchanged when it already was).
pub open spec fn ticked(b: Seq<BrowsedPath>, entry: BrowsedPath, r: Seq<BrowsedPath>) -> bool {
    if has_browsed(b, entry.path@) {
        r == b
    } else {
        r == b.push(entry)
    }
}

impl BrowsedPath {
    /// A copy of this path.
    pub fn duplicate(&self) -> (r: Self)
        ensures
            r == *self,
    {
        BrowsedPath { path: self.path.clone(), name: self.name.clone(), is_dir: self.is_dir }
    }
}

/// The position of the browsed path `p`, if it is ticked.
fn find_browsed(b: &Vec<BrowsedPath>, p: &str) -> (r: Option<usize>)
    ensures
        match r {
            Some(i) => i < b@.len() && b@[i as int].path@ == p@,
            None => !has_browsed(b@, p@),
        },
{
    let mut i: usize = 0;
    while i < b.len()
        invariant
            i <= b@.len(),
            forall|k: int| 0 <= k < i ==> (#[trigger] b@[k]).path@ != p@,
        decreases b@.len() - i,
    {
        if crate::text::str_eq(b[i].path.as_str(), p) {
            return Some(i);
        }
        i = i + 1;
    }
    None
}

proof fn lemma_remove_distinct(b: Seq<BrowsedPath>, i: int)
    requires
        distinct_paths(b),
        0 <= i < b.len(),
    ensures
        distinct_paths(b.remove(i)),
        !has_browsed(b.remove(i), b[i].path@),
{
    let r = b.remove(i);
    assert forall|x: int, y: int| 0 <= x < y < r.len() implies (#[trigger] r[x]).path@ != (#[trigger] r[y]).path@ by {
        let bx = if x < i { x } else { x + 1 };
        let by = if y < i { y } else { y + 1 };
        assert(r[x] == b[bx]);
        assert(r[y] == b[by]);
    }
    if has_browsed(r, b[i].path@) {
        let k = choose|k: int| 0 <= k < r.len() && (#[trigger] r[k]).path@ == b[i].path@;
        let bk = if k < i { k } else { k + 1 };
        assert(r[k] == b[bk]);
    }
}

proof fn lemma_push_distinct(b: Seq<BrowsedPath>, e: BrowsedPath)
    requires
        distinct_paths(b),
        !has_browsed(b, e.path@),
    ensures
        distinct_paths(b.push(e)),
{
    let r = b.push(e);
    assert forall|x: int, y: int| 0 <= x < y < r.len() implies (#[trigger] r[x]).path@ != (#[trigger] r[y]).path@ by {
        assert(r[x] == b[x]);
        if y < b.len() {
            assert(r[y] == b[y]);
        }
    }
}

/// Unticks the path `p`.
fn untick(b: &mut Vec<BrowsedPath>, p: &str)
    requires
        distinct_paths(old(b)@),
    ensures
        distinct_paths(final(b)@),
        unticked(old(b)@, p@, final(b)@),
{
    match find_browsed(b, p) {
        Some(i) => {
            proof {
                lemma_remove_distinct(b@, i as int);
            }
            b.remove(i);
        },
        None => {},
    }
}

/// Ticks `entry`'s path.
fn tick(b: &mut Vec<BrowsedPath>, entry: BrowsedPath)
    requires
        distinct_paths(old(b)@),
    ensures
        distinct_paths(final(b)@),
        ticked(old(b)@, entry, final(b)@),
{
    match find_browsed(b, entry.path.as_str()) {
        Some(_) => {},
        None => {
            proof {
                lemma_push_distinct(b@, entry);
            }
            b.push(entry);
        },
    }
}

/// Ticks `entry`'s path, or unticks it if it was ticked.
fn toggle(b: &mut Vec<BrowsedPath>, entry: BrowsedPath)
    requires
        distinct_paths(old(b)@),
    ensures
        distinct_paths(final(b)@),
        toggled_path(old(b)@, entry, final(b)@),
{
    match find_browsed(b, entry.path.as_str()) {
        Some(i) => {
            proof {
                lemma_remove_distinct(b@, i as int);
            }
            b.remove(i);
        },
        None => {
            proof {
                lemma_push_distinct(b@, entry);
            }
            b.push(entry);
        },
    }
}

/// The fields a search never touches: the tab, the ticks, the browser and the overlays.
pub open spec fn same_but_search(a: SelectorState, b: SelectorState) -> bool {
    &&& b.tab == a.tab
    &&& b.scan_items == a.scan_items
    &&& b.selected == a.selected
    &&& b.browsed == a.browsed
    &&& b.browser == a.browser
    &&& same_overlays(a, b)
}

/// The dialogs and the help overlay are as they were.
pub open spec fn same_overlays(a: SelectorState, b: SelectorState) -> bool {
    &&& b.confirm == a.confirm
    &&& b.help_visible == a.help_visible
    &&& b.help_scroll == a.help_scroll
    &&& b.help_search == a.help_search
}

/// The search and the cursors it moves are as they were.
pub open spec fn same_search(a: SelectorState, b: SelectorState) -> bool {
    &&& b.search == a.search
    &&& b.in_search == a.in_search
    &&& b.pre_search_scan_cursor == a.pre_search_scan_cursor
    &&& b.browse_filter == a.browse_filter
    &&& b.filtered_cursor == a.filtered_cursor
    &&& b.scan_cursor == a.scan_cursor
}

/// An engine with no query, no matches and its cursor at 0.
pub open spec fn fresh(e: FuzzyEngine) -> bool {
    &&& e.wf()
    &&& e.query_spec() == Seq::<char>::empty()
    &&& e.matches_spec() == Seq::<FuzzyMatch>::empty()
    &&& e.cursor_spec() == 0
}

/// `p` is the first position of `idx` in `ix`.
pub open spec fn first_pos(ix: Seq<usize>, idx: usize, p: int) -> bool {
    &&& 0 <= p < ix.len()
    &&& ix[p] == idx
    &&& forall|q: int| 0 <= q < p ==> ix[q] != idx
}

/// The candidate indices of the matches, in match order.
pub open spec fn match_indices(ms: Seq<FuzzyMatch>) -> Seq<usize> {
    ms.map_values(|m: FuzzyMatch| m.index)
}

/// The cursors of `b` follow the match under its search cursor: on the scan tab the scan
/// cursor (else `sc0`) goes to it; in the browser the filtered cursor (else `fc0`) goes to
/// its first position in the filter.
pub open spec fn follows(tab: SelectorTab, sc0: usize, fc0: usize, b: SelectorState) -> bool {
    match engine_selected(b.search) {
        None => b.scan_cursor == sc0 && b.filtered_cursor == fc0,
        Some(idx) => match tab {
            SelectorTab::ScanResults => b.scan_cursor == idx && b.filtered_cursor == fc0,
            SelectorTab::Browse => b.scan_cursor == sc0 && match b.browse_filter {
                Some(ix) => if exists|p: int| 0 <= p < ix@.len() && #[trigger] ix@[p] == idx {
                    first_pos(ix@, idx, b.filtered_cursor as int)
                } else {
                    b.filtered_cursor == fc0
                },
                None => b.filtered_cursor == fc0,
            },
        },
    }
}

/// The search fields of `b` are those of `a` after a clear: no query, no filter, and the
/// scan cursor back where it was when the search opened; the ticks and the overlays stay.
pub open spec fn search_reset(a: SelectorState, b: SelectorState) -> bool {
    &&& b.scan_items == a.scan_items
    &&& b.selected == a.selected
    &&& b.browsed == a.browsed
    &&& same_overlays(a, b)
    &&& b.in_search == a.in_search
    &&& b.pre_search_scan_cursor == a.pre_search_scan_cursor
    &&& fresh(b.search)
    &&& b.browse_filter is None
    &&& b.filtered_cursor == 0
    &&& b.scan_cursor == a.pre_search_scan_cursor
}

/// `b` is `a` after its search was cleared.
pub open spec fn cleared(a: SelectorState, b: SelectorState) -> bool {
    &&& search_reset(a, b)
    &&& b.tab == a.tab
    &&& b.browser == a.browser
}

/// `b` is `a` after its engine, taken with query `q0`, matches `m0` and cursor `c0`,
/// filtered the current list: the scan results, or the browser's listing (which the
/// filter then narrows to the matches); the cursors follow the selected match.
pub open spec fn filtered_from(a: SelectorState, q0: Seq<char>, m0: Seq<FuzzyMatch>, c0: nat, b: SelectorState) -> bool {
    &&& same_but_search(a, b)
    &&& b.in_search == a.in_search
    &&& b.pre_search_scan_cursor == a.pre_search_scan_cursor
    &&& match a.tab {
        SelectorTab::ScanResults => {
            &&& refilter_from(q0, m0, c0, scan_names(a.scan_items@), b.search)
            &&& b.browse_filter == a.browse_filter
            &&& follows(a.tab, a.scan_cursor, a.filtered_cursor, b)
        },
        SelectorTab::Browse => {
            &&& refilter_from(q0, m0, c0, listing_names(a.browser.top_listing()), b.search)
            &&& b.browse_filter matches Some(ix) && ix@ == match_indices(b.search.matches_spec())
            &&& follows(a.tab, a.scan_cursor, 0, b)
        },
    }
}

/// `b` is `a` after its search cursor moved one match up (or down) and the cursors followed.
pub open spec fn stepped(a: SelectorState, up: bool, b: SelectorState) -> bool {
    &&& same_but_search(a, b)
    &&& b.in_search == a.in_search
    &&& b.pre_search_scan_cursor == a.pre_search_scan_cursor
    &&& b.browse_filter == a.browse_filter
    &&& b.search.query_spec() == a.search.query_spec()
    &&& b.search.matches_spec() == a.search.matches_spec()
    &&& (a.search.wf() ==> b.search.wf())
    &&& b.search.cursor_spec() == if up {
        if a.search.cursor_spec() > 0 {
            (a.search.cursor_spec() - 1) as nat
        } else {
            0
        }
    } else if a.search.cursor_spec() + 1 < a.search.matches_spec().len() {
        a.search.cursor_spec() + 1
    } else {
        a.search.cursor_spec()
    }
    &&& follows(a.tab, a.scan_cursor, a.filtered_cursor, b)
}

/// `b` is `a` after the search opened: cleared, then filtered with the empty query; the
/// scan cursor it returns to stays the one of the last search.
pub open spec fn activated(a: SelectorState, b: SelectorState) -> bool {
    &&& same_but_search(a, b)
    &&& b.in_search
    &&& b.pre_search_scan_cursor == a.pre_search_scan_cursor
    &&& match a.tab {
        SelectorTab::ScanResults => {
            &&& refilter_from(Seq::empty(), Seq::empty(), 0, scan_names(a.scan_items@), b.search)
            &&& b.browse_filter is None
            &&& follows(a.tab, a.pre_search_scan_cursor, 0, b)
        },
        SelectorTab::Browse => {
            &&& refilter_from(Seq::empty(), Seq::empty(), 0, listing_names(a.browser.top_listing()), b.search)
            &&& b.browse_filter matches Some(ix) && ix@ == match_indices(b.search.matches_spec())
            &&& follows(a.tab, a.pre_search_scan_cursor, 0, b)
        },
    }
}

/// The first position of `x` in `ix`.
fn position(ix: &Vec<usize>, x: usize) -> (r: Option<usize>)
    ensures
        match r {
            Some(p) => first_pos(ix@, x, p as int),
            None => forall|q: int| 0 <= q < ix@.len() ==> ix@[q] != x,
        },
{
    let mut i: usize = 0;
    while i < ix.len()
        invariant
            i <= ix@.len(),
            forall|q: int| 0 <= q < i ==> ix@[q] != x,
        decreases ix@.len() - i,
    {
        if ix[i] == x {
            return Some(i);
        }
        i = i + 1;
    }
    None
}

/// The indices of the matches, in match order.
fn indices_of(ms: &[FuzzyMatch]) -> (r: Vec<usize>)
    ensures
        r@ == match_indices(ms@),
{
    let mut out: Vec<usize> = Vec::new();
    let mut i: usize = 0;
    while i < ms.len()
        invariant
            i <= ms@.len(),
            out@.len() == i,
            forall|k: int| 0 <= k < i ==> #[trigger] out@[k] == ms@[k].index,
        decreases ms@.len() - i,
    {
        out.push(ms[i].index);
        i = i + 1;
    }
    assert(out@ =~= match_indices(ms@));
    out
}

impl SelectorState {
    /// A query has been typed.
    pub open spec fn filter_active(&self) -> bool {
        self.search.query_spec().len() > 0
    }

    /// The listing index under the browser's cursor: through the filter while one is set
    /// (0 past its end).
    pub open spec fn real_cursor(&self) -> int {
        match self.browse_filter {
            Some(ix) => if self.filtered_cursor < ix@.len() {
                ix@[self.filtered_cursor as int] as int
            } else {
                0
            },
            None => self.browser.top_cursor() as int,
        }
    }

    /// Moves the cursor of the current list to the match under the search cursor.
    pub fn sync_cursor_from_search(&mut self)
        ensures
            same_but_search(*old(self), *final(self)),
            final(self).search == old(self).search,
            final(self).in_search == old(self).in_search,
            final(self).pre_search_scan_cursor == old(self).pre_search_scan_cursor,
            final(self).browse_filter == old(self).browse_filter,
            follows(old(self).tab, old(self).scan_cursor, old(self).filtered_cursor, *final(self)),
    {
        match self.search.selected_index() {
            Some(idx) => match self.tab {
                SelectorTab::ScanResults => {
                    self.scan_cursor = idx;
                },
                SelectorTab::Browse => {
                    let pos = match &self.browse_filter {
                        Some(ix) => position(ix, idx),
                        None => None,
                    };
                    match pos {
                        Some(p) => {
                            self.filtered_cursor = p;
                        },
                        None => {},
                    }
                },
            },
            None => {},
        }
    }

    /// Clears the query and the filter, and returns the scan cursor to where it was when
    /// the search opened.
    pub fn clear_search(&mut self)
        ensures
            cleared(*old(self), *final(self)),
    {
        self.search.clear();
        self.browse_filter = None;
        self.filtered_cursor = 0;
        self.scan_cursor = self.pre_search_scan_cursor;
    }

    /// Filters the current list by the query and moves the cursors to the selected match.
    pub fn apply_search_filter(&mut self)
        ensures
            filtered_from(
                *old(self),
                old(self).search.query_spec(),
                old(self).search.matches_spec(),
                old(self).search.cursor_spec(),
                *final(self),
            ),
    {
        match self.tab {
            SelectorTab::ScanResults => {
                let names = scan_name_refs(&self.scan_items);
                refilter(&mut self.search, names.as_slice());
            },
            SelectorTab::Browse => {
                let names = listing_name_refs(self.browser.current_listing());
                refilter(&mut self.search, names.as_slice());
                let ix = indices_of(self.search.matches());
                self.browse_filter = Some(ix);
                self.filtered_cursor = 0;
            },
        }
        self.sync_cursor_from_search();
    }

    /// Moves the search cursor one match up, and the list cursor with it.
    pub fn search_up(&mut self)
        ensures
            stepped(*old(self), true, *final(self)),
    {
        self.search.move_up();
        self.sync_cursor_from_search();
    }

    /// Moves the search cursor one match down, and the list cursor with it.
    pub fn search_down(&mut self)
        ensures
            stepped(*old(self), false, *final(self)),
    {
        self.search.move_down();
        self.sync_cursor_from_search();
    }

    /// Opens the search over the current list.
    pub fn activate_search(&mut self)
        ensures
            activated(*old(self), *final(self)),
    {
        self.clear_search();
        self.in_search = true;
        self.pre_search_scan_cursor = self.scan_cursor;
        self.apply_search_filter();
    }
}

/// `b` is `a` with only the scan cursor changed, to `c`.
pub open spec fn scan_cursor_moved(a: SelectorState, c: usize, b: SelectorState) -> bool {
    &&& same_but_search(a, b)
    &&& b.search == a.search
    &&& b.in_search == a.in_search
    &&& b.pre_search_scan_cursor == a.pre_search_scan_cursor
    &&& b.browse_filter == a.browse_filter
    &&& b.filtered_cursor == a.filtered_cursor
    &&& b.scan_cursor == c
}

/// The scan result index a tick applies to: the selected match while a query is typed
/// (the scan cursor where there is none), else the scan cursor.
pub open spec fn tick_index(a: SelectorState) -> usize {
    if a.filter_active() {
        match engine_selected(a.search) {
            Some(i) => i,
            None => a.scan_cursor,
        }
    } else {
        a.scan_cursor
    }
}

/// `b` is `a` after a tick on the scan tab: the result at [`tick_index`] flips, and its
/// path is ticked or unticked in the browser with it (nothing happens past the list).
pub open spec fn scan_toggled(a: SelectorState, b: SelectorState) -> bool {
    let i = tick_index(a);
    &&& same_search(a, b)
    &&& same_overlays(a, b)
    &&& b.tab == a.tab
    &&& b.scan_items == a.scan_items
    &&& b.browser == a.browser
    &&& if i < a.scan_items@.len() && i < a.selected@.len() {
        &&& b.selected@ == a.selected@.update(i as int, !a.selected@[i as int])
        &&& if a.selected@[i as int] {
            unticked(a.browsed@, a.scan_items@[i as int].path@, b.browsed@)
        } else {
            ticked(a.browsed@, browsed_of(a.scan_items@[i as int]), b.browsed@)
        }
    } else {
        b.selected == a.selected && b.browsed == a.browsed
    }
}

/// `b` is `a` after a tick in the browser: the entry at the real cursor is ticked or
/// unticked (nothing happens past the listing).
pub open spec fn browse_toggled(a: SelectorState, b: SelectorState) -> bool {
    let i = a.real_cursor();
    let l = a.browser.top_listing();
    &&& same_search(a, b)
    &&& same_overlays(a, b)
    &&& b.tab == a.tab
    &&& b.scan_items == a.scan_items
    &&& b.selected == a.selected
    &&& b.browser == a.browser
    &&& if 0 <= i < l.len() {
        toggled_path(a.browsed@, browsed_of_entry(l[i]), b.browsed@)
    } else {
        b.browsed == a.browsed
    }
}

/// `b` is `a` with the help overlay shown or hidden; showing it scrolls it to the top and
/// clears its search.
pub open spec fn help_toggled(a: SelectorState, b: SelectorState) -> bool {
    &&& same_search(a, b)
    &&& b.tab == a.tab
    &&& b.scan_items == a.scan_items
    &&& b.selected == a.selected
    &&& b.browsed == a.browsed
    &&& b.browser == a.browser
    &&& b.confirm == a.confirm
    &&& b.help_visible == !a.help_visible
    &&& if b.help_visible {
        b.help_scroll == 0 && fresh(b.help_search)
    } else {
        b.help_scroll == a.help_scroll && b.help_search == a.help_search
    }
}

/// The rows of the scan list to draw in `height` lines: from the scroll that keeps the
/// cursor on the last line (0 while it fits), to the end of the list or of the view.
pub open spec fn visible_range_of(cursor: int, total: int, height: int) -> (int, int) {
    let visible = if height == 0 {
        1
    } else {
        height
    };
    if total == 0 {
        (0, 0)
    } else {
        let scroll = if cursor >= visible {
            cursor - visible + 1
        } else {
            0
        };
        (scroll, if scroll + visible < total {
            scroll + visible
        } else {
            total
        })
    }
}

impl SelectorState {
    /// The selector over the scan results (ranked; with `auto_select` the confident ones
    /// start ticked, their paths too) and the browser at `root`, listing `root_listing`.
    pub fn new(items: Vec<DiscoveredItem>, root: String, root_listing: Vec<ListedEntry>, auto_select: bool) -> (r: Self)
        ensures
            r.wf(),
            r.scan_items@ == rank_items(items@),
            forall|i: int| 0 <= i < r.selected@.len() ==> #[trigger] r.selected@[i] == (auto_select && r.scan_items@[i].confidence >= AUTO_SELECT_CONFIDENCE),
            r.browsed@ == ticked_paths(r.scan_items@, r.selected@, r.scan_items@.len() as int),
            r.tab == SelectorTab::ScanResults,
            r.scan_cursor == 0,
            r.browser.dir_stack@ == seq![root],
            r.browser.cursors@ == seq![0usize],
            r.browser.listings@ == seq![root_listing],
            r.browse_filter is None,
            r.filtered_cursor == 0,
            fresh(r.search),
            !r.in_search,
            r.pre_search_scan_cursor == 0,
            r.confirm is None,
            !r.help_visible,
            r.help_scroll == 0,
            fresh(r.help_search),
    {
        let (scan_items, selected) = initial_selection(items, auto_select);
        let mut browsed: Vec<BrowsedPath> = Vec::new();
        let mut i: usize = 0;
        while i < scan_items.len()
            invariant
                i <= scan_items@.len(),
                selected@.len() == scan_items@.len(),
                distinct_paths(browsed@),
                browsed@ == ticked_paths(scan_items@, selected@, i as int),
            decreases scan_items@.len() - i,
        {
            if selected[i] {
                let item = &scan_items[i];
                let entry = BrowsedPath {
                    path: item.path.clone(),
                    name: item.name.clone(),
                    is_dir: item.item_type == ItemType::Dir,
                };
                assert(entry == browsed_of(scan_items@[i as int]));
                tick(&mut browsed, entry);
            }
            i = i + 1;
        }
        SelectorState {
            tab: SelectorTab::ScanResults,
            scan_items,
            selected,
            scan_cursor: 0,
            browser: MillerState::new(root, root_listing),
            browsed,
            browse_filter: None,
            filtered_cursor: 0,
            search: FuzzyEngine::new(),
            in_search: false,
            pre_search_scan_cursor: 0,
            confirm: None,
            help_visible: false,
            help_scroll: 0,
            help_search: FuzzyEngine::new(),
        }
    }

    /// The items a confirmed selection hands back.
    pub fn selected_items(&self) -> (r: Vec<DiscoveredItem>)
        ensures
            r@ == pick_browsed(
                pick_selected(self.scan_items@, self.selected@, self.scan_items@.len() as int),
                self.browsed@,
                self.browsed@.len() as int,
            ),
            selection_ok(r@, self.scan_items@, self.selected@, self.browsed@),
    {
        selected_items(self.scan_items.as_slice(), self.selected.as_slice(), self.browsed.as_slice())
    }

    pub fn scan_up(&mut self)
        ensures
            scan_cursor_moved(*old(self), if old(self).scan_cursor > 0 {
                (old(self).scan_cursor - 1) as usize
            } else {
                old(self).scan_cursor
            }, *final(self)),
    {
        if self.scan_cursor > 0 {
            self.scan_cursor = self.scan_cursor - 1;
        }
    }

    pub fn scan_down(&mut self)
        ensures
            scan_cursor_moved(*old(self), if old(self).scan_cursor + 1 < old(self).scan_items@.len() {
                (old(self).scan_cursor + 1) as usize
            } else {
                old(self).scan_cursor
            }, *final(self)),
    {
        if self.scan_items.len() > 0 && self.scan_cursor < self.scan_items.len() - 1 {
            self.scan_cursor = self.scan_cursor + 1;
        }
    }

    /// Ticks or unticks the scan result at [`tick_index`], and its path in the browser.
    pub fn toggle_scan(&mut self)
        requires
            old(self).wf(),
        ensures
            final(self).wf(),
            scan_toggled(*old(self), *final(self)),
    {
        let idx = if self.search.is_active() {
            match self.search.selected_index() {
                Some(i) => i,
                None => self.scan_cursor,
            }
        } else {
            self.scan_cursor
        };
        if idx >= self.scan_items.len() {
            return;
        }
        if self.selected[idx] {
            self.selected.set(idx, false);
            untick(&mut self.browsed, self.scan_items[idx].path.as_str());
        } else {
            self.selected.set(idx, true);
            let item = &self.scan_items[idx];
            let entry = BrowsedPath {
                path: item.path.clone(),
                name: item.name.clone(),
                is_dir: item.item_type == ItemType::Dir,
            };
            assert(entry == browsed_of(self.scan_items@[idx as int]));
            tick(&mut self.browsed, entry);
        }
    }

    /// The listing index under the browser's cursor.
    fn real_cursor_index(&self) -> (r: usize)
        ensures
            r as int == self.real_cursor(),
    {
        match &self.browse_filter {
            Some(ix) => {
                if self.filtered_cursor < ix.len() {
                    ix[self.filtered_cursor]
                } else {
                    0
                }
            },
            None => self.browser.current_cursor(),
        }
    }

    /// Ticks or unticks the browser entry at the real cursor.
    pub fn toggle_browse(&mut self)
        requires
            old(self).wf(),
        ensures
            final(self).wf(),
            browse_toggled(*old(self), *final(self)),
    {
        let i = self.real_cursor_index();
        let l = self.browser.current_listing();
        if i < l.len() {
            let e = &l[i];
            let entry = BrowsedPath { path: e.path.clone(), name: e.name.clone(), is_dir: e.is_dir };
            assert(entry == browsed_of_entry(self.browser.top_listing()[i as int]));
            toggle(&mut self.browsed, entry);
        }
    }

    /// Shows or hides the help overlay.
    pub fn toggle_help(&mut self)
        ensures
            help_toggled(*old(self), *final(self)),
    {
        self.help_visible = !self.help_visible;
        if self.help_visible {
            self.help_scroll = 0;
            self.help_search.clear();
        }
    }

    /// The rows of the scan list (or of the matches, while a query is typed) to draw in
    /// `height` lines, as a start and an end.
    pub fn visible_range(&self, height: usize) -> (r: (usize, usize))
        ensures
            (r.0 as int, r.1 as int) == visible_range_of(
                if self.filter_active() {
                    self.search.cursor_spec() as int
                } else {
                    self.scan_cursor as int
                },
                if self.filter_active() {
                    self.search.matches_spec().len() as int
                } else {
                    self.scan_items@.len() as int
                },
                height as int,
            ),
    {
        let visible = if height == 0 {
            1
        } else {
            height
        };
        let active = self.search.is_active();
        let total = if active {
            self.search.match_count()
        } else {
            self.scan_items.len()
        };
        if total == 0 {
            return (0, 0);
        }
        let cursor = if active {
            self.search.cursor()
        } else {
            self.scan_cursor
        };
        let scroll = if cursor >= visible {
            cursor - visible + 1
        } else {
            0
        };
        let end = if scroll >= total {
            total
        } else if total - scroll > visible {
            scroll + visible
        } else {
            total
        };
        (scroll, end)
    }
}

/// The selector's key bindings, as its help lists them.
pub open spec fn help_bindings_spec() -> Seq<(&'static str, &'static str)> {
    seq![("?", "help"), ("j/k", "nav"), ("Tab", "focus"), ("/", "search"), ("Space", "select"), ("Enter", "confirm"), ("Esc", "cancel")]
}

/// The lines the help search filters: each binding's key, a space, and what it does.
pub open spec fn help_names() -> Seq<Seq<char>> {
    help_bindings_spec().map_values(|b: (&'static str, &'static str)| b.0@ + " "@ + b.1@)
}

/// The selector's key bindings.
pub fn help_bindings() -> (r: Vec<(&'static str, &'static str)>)
    ensures
        r@ == help_bindings_spec(),
{
    let r = vec![("?", "help"), ("j/k", "nav"), ("Tab", "focus"), ("/", "search"), ("Space", "select"), ("Enter", "confirm"), ("Esc", "cancel")];
    assert(r@ =~= help_bindings_spec());
    r
}

fn help_lines() -> (r: Vec<String>)
    ensures
        r@.map_values(|s: String| s@) == help_names(),
{
    let b = help_bindings();
    let mut out: Vec<String> = Vec::new();
    let mut i: usize = 0;
    while i < b.len()
        invariant
            b@ == help_bindings_spec(),
            i <= b@.len(),
            out@.len() == i,
            forall|k: int| 0 <= k < i ==> (#[trigger] out@[k])@ == b@[k].0@ + " "@ + b@[k].1@,
        decreases b@.len() - i,
    {
        let (k, d) = b[i];
        let l = concat(concat(k, " ").as_str(), d);
        out.push(l);
        i = i + 1;
    }
    assert(out@.map_values(|s: String| s@) =~= help_names());
    out
}

fn string_refs(v: &Vec<String>) -> (r: Vec<&str>)
    ensures
        r@.map_values(|s: &str| s@) == v@.map_values(|s: String| s@),
{
    let mut out: Vec<&str> = Vec::new();
    let mut i: usize = 0;
    while i < v.len()
        invariant
            i <= v@.len(),
            out@.len() == i,
            forall|k: int| 0 <= k < i ==> (#[trigger] out@[k])@ == v@[k]@,
        decreases v@.len() - i,
    {
        out.push(v[i].as_str());
        i = i + 1;
    }
    assert(out@.map_values(|s: &str| s@) =~= v@.map_values(|s: String| s@));
    out
}

/// "app" or "apps", by count.
pub open spec fn app_plural(n: nat) -> Seq<char> {
    if n == 1 {
        ""@
    } else {
        "s"@
    }
}

/// What the confirmation of a selection of `n` items asks.
pub open spec fn ingest_question(n: nat) -> Seq<char> {
    if n == 0 {
        "No apps selected. Exit without selecting any?"@
    } else {
        "Ingest "@ + decimal(n) + " selected app"@ + app_plural(n) + " and finish?"@
    }
}

/// What leaving with `n` items selected asks.
pub open spec fn discard_question(n: nat) -> Seq<char> {
    "Discard "@ + decimal(n) + " selected app"@ + app_plural(n) + " and exit?"@
}

fn count_text(prefix: &str, n: usize, suffix: &str) -> (r: String)
    ensures
        r@ == prefix@ + decimal(n as nat) + " selected app"@ + app_plural(n as nat) + suffix@,
{
    let d = decimal_of(n as u64);
    let a = concat(prefix, d.as_str());
    let b = concat(a.as_str(), " selected app");
    let c = concat(b.as_str(), if n == 1 {
        ""
    } else {
        "s"
    });
    concat(c.as_str(), suffix)
}

/// What a key asks of the event loop.
pub enum SelectorReply {
    /// Keep going.
    Continue,
    /// List this directory and open it as the browser's new column (skip it when it
    /// cannot be read).
    OpenDir(ListedEntry),
    /// The selection is over.
    Finish(TuiResult),
}

/// The items a confirmed selection of `a` hands back.
pub open spec fn selection_of(a: SelectorState) -> Seq<DiscoveredItem> {
    pick_browsed(pick_selected(a.scan_items@, a.selected@, a.scan_items@.len() as int), a.browsed@, a.browsed@.len() as int)
}

/// The answer a dialog holds after `key`: `y` confirms, `n` and Esc cancel.
pub open spec fn confirm_answer(key: Key, d: ConfirmDialog) -> Option<bool> {
    if key == Key::Char('y') {
        Some(true)
    } else if key == Key::Char('n') || key == Key::Esc {
        Some(false)
    } else {
        d.confirmed
    }
}

/// Everything but the confirmation dialog is as it was.
pub open spec fn all_but_confirm(a: SelectorState, b: SelectorState) -> bool {
    &&& same_search(a, b)
    &&& b.tab == a.tab
    &&& b.scan_items == a.scan_items
    &&& b.selected == a.selected
    &&& b.browsed == a.browsed
    &&& b.browser == a.browser
    &&& b.help_visible == a.help_visible
    &&& b.help_scroll == a.help_scroll
    &&& b.help_search == a.help_search
}

/// Everything but the help scroll and the help search is as it was.
pub open spec fn all_but_help(a: SelectorState, b: SelectorState) -> bool {
    &&& same_search(a, b)
    &&& b.tab == a.tab
    &&& b.scan_items == a.scan_items
    &&& b.selected == a.selected
    &&& b.browsed == a.browsed
    &&& b.browser == a.browser
    &&& b.confirm == a.confirm
    &&& b.help_visible == a.help_visible
}

/// A key while the confirmation dialog `a.confirm` is open: an answer closes it; a yes
/// ends the selection (with the selection, or aborted for a discard).
pub open spec fn confirm_step(a: SelectorState, key: Key, b: SelectorState, r: SelectorReply) -> bool {
    let d = a.confirm->Some_0;
    match confirm_answer(key, d) {
        Some(true) => {
            &&& all_but_confirm(a, b)
            &&& b.confirm is None
            &&& match d.action {
                ConfirmAction::Confirm => r matches SelectorReply::Finish(TuiResult::Selected(v)) && v@ == selection_of(a),
                ConfirmAction::Discard => r matches SelectorReply::Finish(TuiResult::Aborted),
            }
        },
        Some(false) => all_but_confirm(a, b) && b.confirm is None && r is Continue,
        None => b == a && r is Continue,
    }
}

/// A key while the help is shown: Esc, `q` and `?` hide it; up and down scroll it; other
/// characters and Backspace edit its search, which filters the bindings.
pub open spec fn help_step(a: SelectorState, key: Key, b: SelectorState, r: SelectorReply) -> bool {
    let e = a.help_search;
    &&& r is Continue
    &&& if key == Key::Esc || key == Key::Char('q') || key == Key::Char('?') {
        help_toggled(a, b)
    } else if key == Key::Up || key == Key::Char('k') {
        all_but_help(a, b) && b.help_search == e && b.help_scroll == (if a.help_scroll > 0 {
            (a.help_scroll - 1) as usize
        } else {
            0
        })
    } else if key == Key::Down || key == Key::Char('j') {
        all_but_help(a, b) && b.help_search == e && b.help_scroll == (if a.help_scroll < usize::MAX {
            (a.help_scroll + 1) as usize
        } else {
            a.help_scroll
        })
    } else if key == Key::Backspace {
        let q = if e.query_spec().len() > 0 {
            e.query_spec().drop_last()
        } else {
            e.query_spec()
        };
        &&& all_but_help(a, b)
        &&& b.help_scroll == a.help_scroll
        &&& if q.len() == 0 {
            fresh(b.help_search)
        } else {
            refilter_from(q, e.matches_spec(), e.cursor_spec(), help_names(), b.help_search)
        }
    } else if key is Char {
        &&& all_but_help(a, b)
        &&& b.help_scroll == a.help_scroll
        &&& refilter_from(e.query_spec().push(key->0), e.matches_spec(), e.cursor_spec(), help_names(), b.help_search)
    } else {
        b == a
    }
}

/// A key while typing a search: Esc and Enter leave the box (the query stays); characters
/// and Backspace edit the query and refilter (an emptied query clears the search); the
/// arrows move among the matches.
pub open spec fn search_step(a: SelectorState, key: Key, b: SelectorState, r: SelectorReply) -> bool {
    let e = a.search;
    &&& r is Continue
    &&& if key == Key::Esc || key == Key::Enter {
        &&& same_but_search(a, b)
        &&& b.search == a.search
        &&& !b.in_search
        &&& b.pre_search_scan_cursor == a.pre_search_scan_cursor
        &&& b.browse_filter == a.browse_filter
        &&& b.filtered_cursor == a.filtered_cursor
        &&& b.scan_cursor == a.scan_cursor
    } else if key is Char {
        filtered_from(a, e.query_spec().push(key->0), e.matches_spec(), e.cursor_spec(), b)
    } else if key == Key::Backspace {
        let q = if e.query_spec().len() > 0 {
            e.query_spec().drop_last()
        } else {
            e.query_spec()
        };
        if q.len() == 0 {
            cleared(a, b)
        } else {
            filtered_from(a, q, e.matches_spec(), e.cursor_spec(), b)
        }
    } else if key == Key::Up {
        stepped(a, true, b)
    } else if key == Key::Down {
        stepped(a, false, b)
    } else {
        b == a
    }
}

/// `c` is the browser `a` with its innermost cursor moved one row up (or down).
pub open spec fn browser_row_moved(a: MillerState<ListedEntry>, up: bool, c: MillerState<ListedEntry>) -> bool {
    &&& c.dir_stack == a.dir_stack
    &&& c.listings == a.listings
    &&& !up && a.top_listing().len() == 0 ==> c.cursors@ == a.cursors@
    &&& (up || a.top_listing().len() > 0) && a.cursors@.len() > 0 ==> c.cursors@ == a.cursors@.update(
        a.cursors@.len() - 1,
        if up {
            if a.top_cursor() > 0 {
                (a.top_cursor() - 1) as usize
            } else {
                0
            }
        } else if a.top_cursor() + 1 < a.top_listing().len() {
            (a.top_cursor() + 1) as usize
        } else {
            (a.top_listing().len() - 1) as usize
        },
    )
}

/// `c` is the browser `a` with its innermost column closed (the root stays).
pub open spec fn browser_closed(a: MillerState<ListedEntry>, c: MillerState<ListedEntry>) -> bool {
    if a.dir_stack@.len() <= 1 {
        c == a
    } else {
        &&& c.dir_stack@ == a.dir_stack@.drop_last()
        &&& c.cursors@ == a.cursors@.drop_last()
        &&& c.listings@ == a.listings@.drop_last()
    }
}

/// `b` is `a` with only the browser changed, to `c`.
pub open spec fn browser_changed(a: SelectorState, b: SelectorState) -> bool {
    &&& same_search(a, b)
    &&& same_overlays(a, b)
    &&& b.tab == a.tab
    &&& b.scan_items == a.scan_items
    &&& b.selected == a.selected
    &&& b.browsed == a.browsed
}

/// A key with no dialog, help or search box open.
pub open spec fn normal_step(a: SelectorState, key: Key, b: SelectorState, r: SelectorReply) -> bool {
    let n = selection_of(a).len();
    let browse = a.tab == SelectorTab::Browse;
    if key == Key::Tab {
        &&& r is Continue
        &&& search_reset(a, b)
        &&& b.tab == (if browse {
            SelectorTab::ScanResults
        } else {
            SelectorTab::Browse
        })
        &&& b.browser == a.browser
    } else if key == Key::Enter {
        &&& r is Continue
        &&& all_but_confirm(a, b)
        &&& b.confirm matches Some(d) && d.title@ == "Confirm"@ && d.message@ == ingest_question(n) && d.border_color
            == DialogColor::Yellow && d.action == ConfirmAction::Confirm && d.confirmed is None
    } else if key == Key::Esc || key == Key::Char('q') {
        if n == 0 {
            r matches SelectorReply::Finish(TuiResult::Aborted) && b == a
        } else {
            &&& r is Continue
            &&& all_but_confirm(a, b)
            &&& b.confirm matches Some(d) && d.title@ == "Discard"@ && d.message@ == discard_question(n) && d.border_color
                == DialogColor::Red && d.action == ConfirmAction::Discard && d.confirmed is None
        }
    } else if key == Key::Char(' ') {
        r is Continue && if browse {
            browse_toggled(a, b)
        } else {
            scan_toggled(a, b)
        }
    } else if key == Key::Up || key == Key::Char('k') || key == Key::Down || key == Key::Char('j') {
        let up = key == Key::Up || key == Key::Char('k');
        &&& r is Continue
        &&& if a.filter_active() {
            stepped(a, up, b)
        } else if browse {
            browser_changed(a, b) && browser_row_moved(a.browser, up, b.browser)
        } else {
            scan_cursor_moved(a, if up {
                if a.scan_cursor > 0 {
                    (a.scan_cursor - 1) as usize
                } else {
                    a.scan_cursor
                }
            } else if a.scan_cursor + 1 < a.scan_items@.len() {
                (a.scan_cursor + 1) as usize
            } else {
                a.scan_cursor
            }, b)
        }
    } else if key == Key::Left || key == Key::Char('h') {
        &&& r is Continue
        &&& if browse {
            search_reset(a, b) && b.tab == a.tab && browser_closed(a.browser, b.browser)
        } else {
            b == a
        }
    } else if key == Key::Right || key == Key::Char('l') {
        let i = a.real_cursor();
        let l = a.browser.top_listing();
        if browse {
            &&& cleared(a, b)
            &&& if 0 <= i < l.len() && l[i].is_dir {
                r matches SelectorReply::OpenDir(e) && e == l[i]
            } else {
                r is Continue
            }
        } else {
            b == a && r is Continue
        }
    } else if key == Key::Char('?') {
        r is Continue && help_toggled(a, b)
    } else if key == Key::Char('/') {
        r is Continue && activated(a, b)
    } else {
        b == a && r is Continue
    }
}

/// What `key` does: the confirmation dialog takes it first, then the help, then the
/// search box, else the lists.
pub open spec fn selector_step(a: SelectorState, key: Key, b: SelectorState, r: SelectorReply) -> bool {
    if a.confirm is Some {
        confirm_step(a, key, b, r)
    } else if a.help_visible {
        help_step(a, key, b, r)
    } else if a.in_search {
        search_step(a, key, b, r)
    } else {
        normal_step(a, key, b, r)
    }
}

fn copy_entry(e: &ListedEntry) -> (r: ListedEntry)
    ensures
        r == *e,
{
    ListedEntry { name: e.name.clone(), path: e.path.clone(), is_dir: e.is_dir, has_config_children: e.has_config_children }
}

impl SelectorState {
    fn confirm_key(&mut self, key: Key) -> (r: SelectorReply)
        requires
            old(self).wf(),
            old(self).confirm is Some,
        ensures
            final(self).wf(),
            confirm_step(*old(self), key, *final(self), r),
    {
        let (answer, action) = match &self.confirm {
            Some(d) => {
                let a = if key == Key::Char('y') {
                    Some(true)
                } else if key == Key::Char('n') || key == Key::Esc {
                    Some(false)
                } else {
                    d.confirmed
                };
                (a, d.action)
            },
            None => (None, ConfirmAction::Confirm),
        };
        match answer {
            Some(true) => {
                self.confirm = None;
                match action {
                    ConfirmAction::Confirm => SelectorReply::Finish(TuiResult::Selected(self.selected_items())),
                    ConfirmAction::Discard => SelectorReply::Finish(TuiResult::Aborted),
                }
            },
            Some(false) => {
                self.confirm = None;
                SelectorReply::Continue
            },
            None => SelectorReply::Continue,
        }
    }

    fn refilter_help(&mut self)
        ensures
            all_but_help(*old(self), *final(self)),
            final(self).help_scroll == old(self).help_scroll,
            refilter_ok(old(self).help_search, help_names(), final(self).help_search),
    {
        let lines = help_lines();
        let refs = string_refs(&lines);
        refilter(&mut self.help_search, refs.as_slice());
    }

    fn help_key(&mut self, key: Key) -> (r: SelectorReply)
        requires
            old(self).wf(),
        ensures
            final(self).wf(),
            help_step(*old(self), key, *final(self), r),
    {
        if key == Key::Esc || key == Key::Char('q') || key == Key::Char('?') {
            self.toggle_help();
        } else if key == Key::Up || key == Key::Char('k') {
            if self.help_scroll > 0 {
                self.help_scroll = self.help_scroll - 1;
            }
        } else if key == Key::Down || key == Key::Char('j') {
            if self.help_scroll < usize::MAX {
                self.help_scroll = self.help_scroll + 1;
            }
        } else if key == Key::Backspace {
            self.help_search.backspace();
            if !self.help_search.is_active() {
                self.help_search.clear();
            } else {
                self.refilter_help();
            }
        } else {
            match key {
                Key::Char(c) => {
                    self.help_search.push_char(c);
                    self.refilter_help();
                },
                _ => {},
            }
        }
        SelectorReply::Continue
    }

    fn search_key(&mut self, key: Key) -> (r: SelectorReply)
        requires
            old(self).wf(),
        ensures
            final(self).wf(),
            search_step(*old(self), key, *final(self), r),
    {
        if key == Key::Esc || key == Key::Enter {
            self.in_search = false;
        } else if key == Key::Backspace {
            self.search.backspace();
            if !self.search.is_active() {
                self.clear_search();
            } else {
                self.apply_search_filter();
            }
        } else if key == Key::Up {
            self.search_up();
        } else if key == Key::Down {
            self.search_down();
        } else {
            match key {
                Key::Char(c) => {
                    self.search.push_char(c);
                    self.apply_search_filter();
                },
                _ => {},
            }
        }
        SelectorReply::Continue
    }

    fn normal_key(&mut self, key: Key) -> (r: SelectorReply)
        requires
            old(self).wf(),
        ensures
            final(self).wf(),
            normal_step(*old(self), key, *final(self), r),
    {
        let browse = self.tab == SelectorTab::Browse;
        if key == Key::Tab {
            self.tab = if browse {
                SelectorTab::ScanResults
            } else {
                SelectorTab::Browse
            };
            self.clear_search();
            SelectorReply::Continue
        } else if key == Key::Enter {
            let n = self.selected_items().len();
            let message = if n == 0 {
                "No apps selected. Exit without selecting any?".to_string()
            } else {
                count_text("Ingest ", n, " and finish?")
            };
            self.confirm = Some(ConfirmDialog::affirmative("Confirm".to_string(), message));
            SelectorReply::Continue
        } else if key == Key::Esc || key == Key::Char('q') {
            let n = self.selected_items().len();
            if n == 0 {
                SelectorReply::Finish(TuiResult::Aborted)
            } else {
                let message = count_text("Discard ", n, " and exit?");
                self.confirm = Some(ConfirmDialog::destructive("Discard".to_string(), message));
                SelectorReply::Continue
            }
        } else if key == Key::Char(' ') {
            if browse {
                self.toggle_browse();
            } else {
                self.toggle_scan();
            }
            SelectorReply::Continue
        } else if key == Key::Up || key == Key::Char('k') || key == Key::Down || key == Key::Char('j') {
            let up = key == Key::Up || key == Key::Char('k');
            if self.search.is_active() {
                if up {
                    self.search_up();
                } else {
                    self.search_down();
                }
            } else if browse {
                if up {
                    self.browser.move_up();
                } else {
                    self.browser.move_down();
                }
            } else if up {
                self.scan_up();
            } else {
                self.scan_down();
            }
            SelectorReply::Continue
        } else if key == Key::Left || key == Key::Char('h') {
            if browse {
                self.browser.move_left();
                self.clear_search();
            }
            SelectorReply::Continue
        } else if key == Key::Right || key == Key::Char('l') {
            if browse {
                let i = self.real_cursor_index();
                let reply = {
                    let l = self.browser.current_listing();
                    if i < l.len() && l[i].is_dir {
                        SelectorReply::OpenDir(copy_entry(&l[i]))
                    } else {
                        SelectorReply::Continue
                    }
                };
                self.clear_search();
                reply
            } else {
                SelectorReply::Continue
            }
        } else if key == Key::Char('?') {
            self.toggle_help();
            SelectorReply::Continue
        } else if key == Key::Char('/') {
            self.activate_search();
            SelectorReply::Continue
        } else {
            SelectorReply::Continue
        }
    }

    /// What `key` does (see [`selector_step`]).
    pub fn key(&mut self, key: Key) -> (r: SelectorReply)
        requires
            old(self).wf(),
        ensures
            final(self).wf(),
            selector_step(*old(self), key, *final(self), r),
    {
        if self.confirm.is_some() {
            self.confirm_key(key)
        } else if self.help_visible {
            self.help_key(key)
        } else if self.in_search {
            self.search_key(key)
        } else {
            self.normal_key(key)
        }
    }

    /// Opens `entry`, whose directory lists `listing`, as the browser's innermost column,
    /// with no filter.
    pub fn open_dir(&mut self, entry: ListedEntry, listing: Vec<ListedEntry>)
        requires
            old(self).wf(),
        ensures
            final(self).wf(),
            final(self).browser.dir_stack@.drop_last() == old(self).browser.dir_stack@,
            final(self).browser.cursors@ == old(self).browser.cursors@.push(0),
            final(self).browser.listings@ == old(self).browser.listings@.push(listing),
            final(self).browse_filter is None,
            final(self).filtered_cursor == 0,
            final(self).tab == old(self).tab,
            final(self).scan_items == old(self).scan_items,
            final(self).selected == old(self).selected,
            final(self).browsed == old(self).browsed,
            final(self).search == old(self).search,
            final(self).in_search == old(self).in_search,
            final(self).scan_cursor == old(self).scan_cursor,
            final(self).pre_search_scan_cursor == old(self).pre_search_scan_cursor,
            same_overlays(*old(self), *final(self)),
    {
        self.browser.move_right(entry, listing);
        self.browse_filter = None;
        self.filtered_cursor = 0;
    }
}

/// How confident a scan result looks in the list.
#[derive(Debug, Clone, Copy, PartialEq, Eq, Structural)]
pub enum ConfidenceLevel {
    /// At least the auto-select threshold.
    High,
    /// At least 100.
    Medium,
    Low,
}

/// The level a confidence is shown at: high from [`AUTO_SELECT_CONFIDENCE`], medium from 100.
pub fn confidence_level(confidence: u32) -> (r: ConfidenceLevel)
    ensures
        r == (if confidence >= AUTO_SELECT_CONFIDENCE {
            ConfidenceLevel::High
        } else if confidence >= 100 {
            ConfidenceLevel::Medium
        } else {
            ConfidenceLevel::Low
        }),
{
    if confidence >= AUTO_SELECT_CONFIDENCE {
        ConfidenceLevel::High
    } else if confidence >= 100 {
        ConfidenceLevel::Medium
    } else {
        ConfidenceLevel::Low
    }
}

proof fn lemma_untick_pushed(b: Seq<BrowsedPath>, e: BrowsedPath, r: Seq<BrowsedPath>)
    requires
        distinct_paths(b),
        !has_browsed(b, e.path@),
        unticked(b.push(e), e.path@, r),
    ensures
        r == b,
{
    let n = b.push(e);
    lemma_push_distinct(b, e);
    assert(n[b.len() as int] == e);
    let i = choose|i: int| 0 <= i < n.len() && (#[trigger] n[i]).path@ == e.path@ && r == n.remove(i);
    if i < b.len() {
        assert(n[i] == b[i]);
    }
    assert(i == b.len());
    assert(n.remove(i) =~= b);
}

proof fn lemma_toggle_pushed(b: Seq<BrowsedPath>, e: BrowsedPath, f: BrowsedPath, r: Seq<BrowsedPath>)
    requires
        distinct_paths(b),
        !has_browsed(b, e.path@),
        f.path@ == e.path@,
        toggled_path(b.push(e), f, r),
    ensures
        r == b,
{
    let n = b.push(e);
    assert(n[b.len() as int] == e);
    assert(has_browsed(n, f.path@));
    lemma_untick_pushed(b, e, r);
}

/// Ticking a scan result that is not ticked, and whose path is not ticked in the browser,
/// then unticking it, leaves the ticks as they were.
pub proof fn lemma_scan_tick_untick(a: SelectorState, b: SelectorState, c: SelectorState)
    requires
        a.wf(),
        scan_toggled(a, b),
        scan_toggled(b, c),
        tick_index(a) < a.scan_items@.len(),
        !a.selected@[tick_index(a) as int],
        !has_browsed(a.browsed@, a.scan_items@[tick_index(a) as int].path@),
    ensures
        c.selected@ == a.selected@,
        c.browsed@ == a.browsed@,
{
    let i = tick_index(a);
    let e = browsed_of(a.scan_items@[i as int]);
    assert(tick_index(b) == i);
    assert(b.browsed@ == a.browsed@.push(e));
    assert(b.selected@[i as int]);
    lemma_untick_pushed(a.browsed@, e, c.browsed@);
    assert(c.selected@ =~= a.selected@);
}

/// Ticking a browser entry whose path is not ticked, then ticking it again, leaves the
/// ticks as they were.
pub proof fn lemma_browse_tick_untick(a: SelectorState, b: SelectorState, c: SelectorState)
    requires
        a.wf(),
        browse_toggled(a, b),
        browse_toggled(b, c),
        0 <= a.real_cursor() < a.browser.top_listing().len(),
        !has_browsed(a.browsed@, a.browser.top_listing()[a.real_cursor()].path@),
    ensures
        c.browsed@ == a.browsed@,
{
    let e = browsed_of_entry(a.browser.top_listing()[a.real_cursor()]);
    assert(b.real_cursor() == a.real_cursor());
    assert(b.browsed@ == a.browsed@.push(e));
    lemma_toggle_pushed(a.browsed@, e, e, c.browsed@);
}

} // verus!
