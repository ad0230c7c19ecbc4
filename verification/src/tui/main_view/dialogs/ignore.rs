//! Ignore pattern management dialog with two modes (Tab to cycle):
//! 1. Add — type a pattern to add to the ignore list
//! 2. Remove — select a pattern to remove from the ignore list
use vstd::prelude::*;

use super::{scroll_window, window};

verus! {

#[derive(Debug, Clone, Copy, PartialEq, Eq, Structural)]
pub enum IgnoreMode {
    Add,
    Remove,
}

/// The mode that Tab switches to.
pub open spec fn next_ignore_mode(m: IgnoreMode) -> IgnoreMode {
    match m {
        IgnoreMode::Add => IgnoreMode::Remove,
        IgnoreMode::Remove => IgnoreMode::Add,
    }
}

impl IgnoreMode {
    pub fn next(&self) -> (r: Self)
        ensures
            r == next_ignore_mode(*self),
    {
        match self {
            IgnoreMode::Add => IgnoreMode::Remove,
            IgnoreMode::Remove => IgnoreMode::Add,
        }
    }
}

/// Two presses of Tab come back to the same mode; one press always changes it.
pub proof fn lemma_ignore_mode_cycle(m: IgnoreMode)
    ensures
        next_ignore_mode(next_ignore_mode(m)) == m,
        next_ignore_mode(m) != m,
{
}

pub struct IgnoreState {
    pub mode: IgnoreMode,
    pub cursor: usize,
    pub scroll: usize,
    pub input: String,
}

impl IgnoreState {
    pub fn new() -> (r: Self)
        ensures
            r.mode == IgnoreMode::Add,
            r.cursor == 0,
            r.scroll == 0,
            r.input@ == Seq::<char>::empty(),
    {
        IgnoreState { mode: IgnoreMode::Add, cursor: 0, scroll: 0, input: String::new() }
    }

    pub fn move_up(&mut self)
        ensures
            final(self).cursor == (if old(self).cursor > 0 {
                (old(self).cursor - 1) as usize
            } else {
                0
            }),
            final(self).mode == old(self).mode,
            final(self).scroll == old(self).scroll,
            final(self).input == old(self).input,
    {
        if self.cursor > 0 {
            self.cursor = self.cursor - 1;
        }
    }

    pub fn move_down(&mut self, max: usize)
        ensures
            final(self).cursor == (if old(self).cursor + 1 < max {
                (old(self).cursor + 1) as usize
            } else {
                old(self).cursor
            }),
            final(self).mode == old(self).mode,
            final(self).scroll == old(self).scroll,
            final(self).input == old(self).input,
    {
        if self.cursor < max && self.cursor + 1 < max {
            self.cursor = self.cursor + 1;
        }
    }

    pub fn scroll_for_visible(&self, visible: usize, total: usize) -> (r: (usize, usize))
        requires
            total > 0 ==> self.cursor < usize::MAX,
        ensures
            r == window(self.cursor, visible, total),
    {
        scroll_window(self.cursor, visible, total)
    }

    /// Switches to the other mode and goes back to the top of the list.
    pub fn cycle_mode(&mut self)
        ensures
            final(self).mode == next_ignore_mode(old(self).mode),
            final(self).cursor == 0,
            final(self).scroll == 0,
            final(self).input == old(self).input,
    {
        self.mode = self.mode.next();
        self.cursor = 0;
        self.scroll = 0;
    }
}

} // verus!
