//! Onboarding selector state: tabs and the Miller-column browser.
use vstd::prelude::*;

use crate::collections::StrSet;
use crate::scanner::ListedEntry;

verus! {

/// An entry that the Miller browser can list and descend into.
pub trait MillerEntry {
    /// The entry's path, as characters.
    spec fn path_of(&self) -> Seq<char>;

    /// Whether the entry is a directory.
    spec fn is_dir_of(&self) -> bool;

    /// The entry's path.
    fn path(&self) -> (r: String)
        ensures
            r@ == self.path_of(),
    ;

    fn is_dir(&self) -> (r: bool)
        ensures
            r == self.is_dir_of(),
    ;
}

impl MillerEntry for ListedEntry {
    open spec fn path_of(&self) -> Seq<char> {
        self.path@
    }

    open spec fn is_dir_of(&self) -> bool {
        self.is_dir
    }

    fn path(&self) -> (r: String) {
        self.path.clone()
    }

    fn is_dir(&self) -> (r: bool) {
        self.is_dir
    }
}

/// What the onboarding selector starts from.
pub struct OnboardingContext {
    pub profile_name: String,
    pub sources: Vec<String>,
    pub ignored: StrSet,
    pub existing_app_paths: Vec<String>,
}

/// The active tab: one per scanned source, then the free browser.
#[derive(Debug, Clone, PartialEq, Eq, Structural)]
pub enum Tab {
    Source(usize),
    Browse,
}

/// Position of a tab among `sources + 1` tabs.
pub open spec fn tab_index(tab: Tab, sources: nat) -> nat {
    match tab {
        Tab::Source(i) => i as nat,
        Tab::Browse => sources,
    }
}

/// The tab at a position; positions past the sources are the browser.
pub open spec fn tab_at(idx: nat, sources: nat) -> Tab {
    if idx < sources {
        Tab::Source(idx as usize)
    } else {
        Tab::Browse
    }
}

/// A tab that exists among `sources + 1` tabs.
pub open spec fn tab_valid(tab: Tab, sources: nat) -> bool {
    match tab {
        Tab::Source(i) => i < sources,
        Tab::Browse => true,
    }
}

/// The tab after `tab`, wrapping from the browser to the first source.
pub open spec fn next_tab_of(tab: Tab, sources: nat) -> Tab {
    let i = tab_index(tab, sources);
    tab_at(if i < sources { (i + 1) as nat } else { 0 }, sources)
}

/// The tab before `tab`, wrapping from the first source to the browser.
pub open spec fn prev_tab_of(tab: Tab, sources: nat) -> Tab {
    let i = tab_index(tab, sources);
    tab_at(if i == 0 { sources } else { (i - 1) as nat }, sources)
}

impl Tab {
    /// Position of this tab when there are `sources` source tabs.
    pub fn index(&self, sources: usize) -> (r: usize)
        ensures
            r == tab_index(*self, sources as nat),
    {
        match self {
            Tab::Source(i) => *i,
            Tab::Browse => sources,
        }
    }

    /// The next tab, wrapping from the browser to the first source.
    pub fn next(&self, sources: usize) -> (r: Tab)
        requires
            tab_valid(*self, sources as nat),
        ensures
            r == next_tab_of(*self, sources as nat),
            tab_valid(r, sources as nat),
    {
        let idx = self.index(sources);
        let next = if idx < sources {
            idx + 1
        } else {
            0
        };
        if next < sources {
            Tab::Source(next)
        } else {
            Tab::Browse
        }
    }

    /// The previous tab, wrapping from the first source to the browser.
    pub fn prev(&self, sources: usize) -> (r: Tab)
        requires
            tab_valid(*self, sources as nat),
        ensures
            r == prev_tab_of(*self, sources as nat),
            tab_valid(r, sources as nat),
    {
        let idx = self.index(sources);
        let prev = if idx == 0 {
            sources
        } else {
            idx - 1
        };
        if prev < sources {
            Tab::Source(prev)
        } else {
            Tab::Browse
        }
    }
}

/// Moving to the next tab and back returns to the same tab, and so does the reverse.
pub proof fn lemma_tab_round_trip(tab: Tab, sources: nat)
    requires
        tab_valid(tab, sources),
        sources <= usize::MAX,
    ensures
        prev_tab_of(next_tab_of(tab, sources), sources) == tab,
        next_tab_of(prev_tab_of(tab, sources), sources) == tab,
{
}

/// Miller columns: a stack of directories, each with its listing and cursor. The three
/// stacks always have the same height, at least one.
pub struct MillerState<T: MillerEntry> {
    pub dir_stack: Vec<String>,
    pub cursors: Vec<usize>,
    pub listings: Vec<Vec<T>>,
}

impl<T: MillerEntry> MillerState<T> {
    /// The stacks have one level each per open directory, and at least the root.
    pub open spec fn wf(&self) -> bool {
        &&& self.dir_stack@.len() >= 1
        &&& self.cursors@.len() == self.dir_stack@.len()
        &&& self.listings@.len() == self.dir_stack@.len()
    }

    /// The cursor of the innermost column, 0 where there is none.
    pub open spec fn top_cursor(&self) -> usize {
        if self.cursors@.len() > 0 {
            self.cursors@.last()
        } else {
            0
        }
    }

    /// The listing of the innermost column, empty where there is none.
    pub open spec fn top_listing(&self) -> Seq<T> {
        if self.listings@.len() > 0 {
            self.listings@.last()@
        } else {
            Seq::empty()
        }
    }

    pub fn new(root: String, initial_listing: Vec<T>) -> (r: Self)
        ensures
            r.wf(),
            r.dir_stack@ == seq![root],
            r.cursors@ == seq![0usize],
            r.listings@ == seq![initial_listing],
            cursors_inside(r),
    {
        let mut dir_stack: Vec<String> = Vec::new();
        dir_stack.push(root);
        let mut cursors: Vec<usize> = Vec::new();
        cursors.push(0);
        let mut listings: Vec<Vec<T>> = Vec::new();
        listings.push(initial_listing);
        MillerState { dir_stack, cursors, listings }
    }

    /// The innermost directory.
    pub fn current_dir(&self) -> (r: &str)
        requires
            self.dir_stack@.len() >= 1,
        ensures
            r@ == self.dir_stack@.last()@,
    {
        self.dir_stack[self.dir_stack.len() - 1].as_str()
    }

    pub fn current_listing(&self) -> (r: &[T])
        ensures
            r@ == self.top_listing(),
    {
        let n = self.listings.len();
        if n > 0 {
            self.listings[n - 1].as_slice()
        } else {
            &[]
        }
    }

    pub fn current_cursor(&self) -> (r: usize)
        ensures
            r == self.top_cursor(),
    {
        let n = self.cursors.len();
        if n > 0 {
            self.cursors[n - 1]
        } else {
            0
        }
    }

    /// The entry under the innermost cursor.
    pub fn current_entry(&self) -> (r: Option<&T>)
        ensures
            match r {
                Some(e) => self.top_cursor() < self.top_listing().len() && *e == self.top_listing()[self.top_cursor() as int],
                None => self.top_cursor() >= self.top_listing().len(),
            },
    {
        let listing = self.current_listing();
        let c = self.current_cursor();
        if c < listing.len() {
            Some(&listing[c])
        } else {
            None
        }
    }

    /// The listing one level above the innermost, if there is one.
    pub fn parent_listing(&self) -> (r: Option<&[T]>)
        ensures
            match r {
                Some(l) => self.listings@.len() >= 2 && l@ == self.listings@[self.listings@.len() - 2]@,
                None => self.listings@.len() < 2,
            },
    {
        let n = self.listings.len();
        if n >= 2 {
            Some(self.listings[n - 2].as_slice())
        } else {
            None
        }
    }

    /// The cursor one level above the innermost, if there is one.
    pub fn parent_cursor(&self) -> (r: Option<usize>)
        ensures
            match r {
                Some(c) => self.cursors@.len() >= 2 && c == self.cursors@[self.cursors@.len() - 2],
                None => self.cursors@.len() < 2,
            },
    {
        let n = self.cursors.len();
        if n >= 2 {
            Some(self.cursors[n - 2])
        } else {
            None
        }
    }

    /// Moves the innermost cursor down one entry, stopping at the last.
    pub fn move_down(&mut self)
        ensures
            final(self).dir_stack == old(self).dir_stack,
            final(self).listings == old(self).listings,
            final(self).cursors@.len() == old(self).cursors@.len(),
            (old(self).top_listing().len() == 0 || old(self).cursors@.len() == 0) ==> final(self).cursors@ == old(self).cursors@,
            old(self).top_listing().len() > 0 && old(self).cursors@.len() > 0 ==> final(self).cursors@ == old(self).cursors@.update(
                old(self).cursors@.len() - 1,
                (if old(self).top_cursor() + 1 < old(self).top_listing().len() {
                    old(self).top_cursor() + 1
                } else {
                    old(self).top_listing().len() - 1
                }) as usize,
            ),
            miller_call(*old(self), MillerCall::Down, *final(self)),
    {
        let len = self.current_listing().len();
        if len == 0 {
            return;
        }
        let n = self.cursors.len();
        if n > 0 {
            let c = self.cursors[n - 1];
            let next = if c < len - 1 {
                c + 1
            } else {
                len - 1
            };
            self.cursors.set(n - 1, next);
        }
    }

    /// Moves the innermost cursor up one entry, stopping at the first.
    pub fn move_up(&mut self)
        ensures
            final(self).dir_stack == old(self).dir_stack,
            final(self).listings == old(self).listings,
            old(self).cursors@.len() == 0 ==> final(self).cursors@ == old(self).cursors@,
            old(self).cursors@.len() > 0 ==> final(self).cursors@ == old(self).cursors@.update(
                old(self).cursors@.len() - 1,
                (if old(self).top_cursor() > 0 {
                    old(self).top_cursor() - 1
                } else {
                    0
                }) as usize,
            ),
            miller_call(*old(self), MillerCall::Up, *final(self)),
    {
        let n = self.cursors.len();
        if n > 0 {
            let c = self.cursors[n - 1];
            let prev = if c > 0 {
                c - 1
            } else {
                0
            };
            self.cursors.set(n - 1, prev);
        }
    }

    /// Opens `entry` as a new innermost column listing `child_listing`.
    pub fn move_right(&mut self, entry: T, child_listing: Vec<T>)
        ensures
            final(self).dir_stack@.len() == old(self).dir_stack@.len() + 1,
            final(self).dir_stack@.drop_last() == old(self).dir_stack@,
            final(self).dir_stack@.last()@ == entry.path_of(),
            final(self).cursors@ == old(self).cursors@.push(0),
            final(self).listings@ == old(self).listings@.push(child_listing),
            miller_call(*old(self), MillerCall::Right(entry, child_listing@), *final(self)),
    {
        let p = entry.path();
        self.dir_stack.push(p);
        self.cursors.push(0);
        self.listings.push(child_listing);
        assert(self.listings@.drop_last() =~= old(self).listings@);
    }

    /// Closes the innermost column, keeping the root.
    pub fn move_left(&mut self)
        ensures
            old(self).dir_stack@.len() <= 1 ==> *final(self) == *old(self),
            old(self).dir_stack@.len() > 1 ==> {
                &&& final(self).dir_stack@ == old(self).dir_stack@.drop_last()
                &&& old(self).cursors@.len() > 0 ==> final(self).cursors@ == old(self).cursors@.drop_last()
                &&& old(self).listings@.len() > 0 ==> final(self).listings@ == old(self).listings@.drop_last()
            },
            miller_call(*old(self), MillerCall::Left, *final(self)),
    {
        if self.dir_stack.len() <= 1 {
            return;
        }
        self.dir_stack.pop();
        self.cursors.pop();
        self.listings.pop();
    }
}

/// A move of the Miller browser, with what it was given.
pub ghost enum MillerCall<T> {
    Up,
    Down,
    /// Open an entry as a new column that lists these entries.
    Right(T, Seq<T>),
    Left,
}

/// `b` is the browser `a` after `call`, as the moves state it.
pub open spec fn miller_call<T: MillerEntry>(a: MillerState<T>, call: MillerCall<T>, b: MillerState<T>) -> bool {
    match call {
        MillerCall::Up => {
            &&& b.dir_stack == a.dir_stack
            &&& b.listings == a.listings
            &&& a.cursors@.len() == 0 ==> b.cursors@ == a.cursors@
            &&& a.cursors@.len() > 0 ==> b.cursors@ == a.cursors@.update(
                a.cursors@.len() - 1,
                (if a.top_cursor() > 0 {
                    a.top_cursor() - 1
                } else {
                    0
                }) as usize,
            )
        },
        MillerCall::Down => {
            &&& b.dir_stack == a.dir_stack
            &&& b.listings == a.listings
            &&& (a.top_listing().len() == 0 || a.cursors@.len() == 0) ==> b.cursors@ == a.cursors@
            &&& a.top_listing().len() > 0 && a.cursors@.len() > 0 ==> b.cursors@ == a.cursors@.update(
                a.cursors@.len() - 1,
                (if a.top_cursor() + 1 < a.top_listing().len() {
                    a.top_cursor() + 1
                } else {
                    a.top_listing().len() - 1
                }) as usize,
            )
        },
        MillerCall::Right(entry, listing) => {
            &&& b.dir_stack@.len() == a.dir_stack@.len() + 1
            &&& b.dir_stack@.drop_last() == a.dir_stack@
            &&& b.dir_stack@.last()@ == entry.path_of()
            &&& b.cursors@ == a.cursors@.push(0)
            &&& b.listings@.len() == a.listings@.len() + 1
            &&& b.listings@.drop_last() == a.listings@
            &&& b.listings@.last()@ == listing
        },
        MillerCall::Left => {
            &&& a.dir_stack@.len() <= 1 ==> b == a
            &&& a.dir_stack@.len() > 1 ==> {
                &&& b.dir_stack@ == a.dir_stack@.drop_last()
                &&& a.cursors@.len() > 0 ==> b.cursors@ == a.cursors@.drop_last()
                &&& a.listings@.len() > 0 ==> b.listings@ == a.listings@.drop_last()
            }
        },
    }
}

/// Every column's cursor is on an entry of its listing (or 0 where the listing is empty).
pub open spec fn cursors_inside<T: MillerEntry>(m: MillerState<T>) -> bool {
    forall|i: int|
        0 <= i < m.cursors@.len() && i < m.listings@.len() ==> (#[trigger] m.listings@[i])@.len() == 0 || m.cursors@[i]
            < m.listings@[i]@.len()
}

proof fn lemma_miller_call_keeps<T: MillerEntry>(a: MillerState<T>, call: MillerCall<T>, b: MillerState<T>)
    requires
        a.wf(),
        cursors_inside(a),
        miller_call(a, call, b),
    ensures
        b.wf(),
        cursors_inside(b),
{
    let n = a.cursors@.len();
    match call {
        MillerCall::Up | MillerCall::Down => {
            assert forall|i: int|
                0 <= i < b.cursors@.len() && i < b.listings@.len() implies (#[trigger] b.listings@[i])@.len() == 0
                    || b.cursors@[i] < b.listings@[i]@.len() by {
                assert(b.listings@[i] == a.listings@[i]);
                if i < n - 1 {
                    assert(b.cursors@[i] == a.cursors@[i]);
                } else {
                    assert(a.top_listing() == a.listings@[n - 1]@);
                    assert(a.top_cursor() == a.cursors@[n - 1]);
                }
            }
        },
        MillerCall::Right(entry, listing) => {
            assert forall|i: int|
                0 <= i < b.cursors@.len() && i < b.listings@.len() implies (#[trigger] b.listings@[i])@.len() == 0
                    || b.cursors@[i] < b.listings@[i]@.len() by {
                if i < n {
                    assert(b.cursors@[i] == a.cursors@[i]);
                    assert(b.listings@[i] == b.listings@.drop_last()[i]);
                } else {
                    assert(b.cursors@[i] == 0);
                }
            }
        },
        MillerCall::Left => {
            if a.dir_stack@.len() > 1 {
                assert forall|i: int|
                    0 <= i < b.cursors@.len() && i < b.listings@.len() implies (#[trigger] b.listings@[i])@.len() == 0
                        || b.cursors@[i] < b.listings@[i]@.len() by {
                    assert(b.cursors@[i] == a.cursors@[i]);
                    assert(b.listings@[i] == a.listings@[i]);
                }
            }
        },
    }
}

/// Over any sequence of moves from a well-formed browser whose cursors are on their
/// entries (as [`MillerState::new`] makes one), the browser stays well formed and every
/// cursor stays on an entry of its listing; in particular the innermost cursor is on the
/// innermost listing whenever that listing is not empty.
pub proof fn lemma_miller_cursor_inside<T: MillerEntry>(states: Seq<MillerState<T>>, calls: Seq<MillerCall<T>>)
    requires
        states.len() == calls.len() + 1,
        states[0].wf(),
        cursors_inside(states[0]),
        forall|i: int| 0 <= i < calls.len() ==> #[trigger] miller_call(states[i], calls[i], states[i + 1]),
    ensures
        states.last().wf(),
        cursors_inside(states.last()),
        states.last().top_listing().len() == 0 || states.last().top_cursor() < states.last().top_listing().len(),
    decreases calls.len(),
{
    if calls.len() > 0 {
        let k = calls.len() - 1;
        assert forall|i: int| 0 <= i < calls.drop_last().len() implies #[trigger] miller_call(
            states.drop_last()[i],
            calls.drop_last()[i],
            states.drop_last()[i + 1],
        ) by {
            assert(miller_call(states[i], calls[i], states[i + 1]));
        }
        lemma_miller_cursor_inside(states.drop_last(), calls.drop_last());
        assert(states.drop_last().last() == states[k]);
        assert(miller_call(states[k], calls[k], states[k + 1]));
        lemma_miller_call_keeps(states[k], calls[k], states[k + 1]);
    }
    let m = states.last();
    let n = m.cursors@.len();
    assert(m.listings@[n - 1] == m.listings@.last());
}

} // verus!
