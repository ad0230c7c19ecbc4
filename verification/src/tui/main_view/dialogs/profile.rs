//! Profile management dialog with three modes (Tab to cycle):
//! 1. Switch — list profiles, pick one to activate
//! 2. Create — type name, choose [current]/[empty]
//! 3. Delete — select profile, confirm deletion
use vstd::prelude::*;

use super::{scroll_window, window};

verus! {

#[derive(Debug, Clone, Copy, PartialEq, Eq, Structural)]
pub enum ProfileMode {
    Switch,
    Create,
    Delete,
}

/// The mode that Tab switches to.
pub open spec fn next_profile_mode(m: ProfileMode) -> ProfileMode {
    match m {
        ProfileMode::Switch => ProfileMode::Create,
        ProfileMode::Create => ProfileMode::Delete,
        ProfileMode::Delete => ProfileMode::Switch,
    }
}

impl ProfileMode {
    pub fn next(&self) -> (r: Self)
        ensures
            r == next_profile_mode(*self),
    {
        match self {
            ProfileMode::Switch => ProfileMode::Create,
            ProfileMode::Create => ProfileMode::Delete,
            ProfileMode::Delete => ProfileMode::Switch,
        }
    }
}

/// Three presses of Tab come back to the same mode; one or two presses always change it.
pub proof fn lemma_profile_mode_cycle(m: ProfileMode)
    ensures
        next_profile_mode(next_profile_mode(next_profile_mode(m))) == m,
        next_profile_mode(m) != m,
        next_profile_mode(next_profile_mode(m)) != m,
{
}

pub struct ProfileState {
    pub mode: ProfileMode,
    pub cursor: usize,
    pub scroll: usize,
    pub input: String,
    /// Whether a new profile starts as a copy of the current one.
    pub copy_current: bool,
}

impl ProfileState {
    pub fn new() -> (r: Self)
        ensures
            r.mode == ProfileMode::Switch,
            r.copy_current,
            r.cursor == 0,
            r.scroll == 0,
            r.input@ == Seq::<char>::empty(),
    {
        ProfileState {
            mode: ProfileMode::Switch,
            cursor: 0,
            scroll: 0,
            input: String::new(),
            copy_current: true,
        }
    }

    pub fn move_up(&mut self)
        ensures
            final(self).cursor == (if old(self).cursor > 0 {
                (old(self).cursor - 1) as usize
            } else {
                0
            }),
            final(self).mode == old(self).mode,
            final(self).scroll == old(self).scroll,
            final(self).input == old(self).input,
            final(self).copy_current == old(self).copy_current,
    {
        if self.cursor > 0 {
            self.cursor = self.cursor - 1;
        }
    }

    pub fn move_down(&mut self, max: usize)
        ensures
            final(self).cursor == (if old(self).cursor + 1 < max {
                (old(self).cursor + 1) as usize
            } else {
                old(self).cursor
            }),
            final(self).mode == old(self).mode,
            final(self).scroll == old(self).scroll,
            final(self).input == old(self).input,
            final(self).copy_current == old(self).copy_current,
    {
        if self.cursor < max && self.cursor + 1 < max {
            self.cursor = self.cursor + 1;
        }
    }

    pub fn scroll_for_visible(&self, visible: usize, total: usize) -> (r: (usize, usize))
        requires
            total > 0 ==> self.cursor < usize::MAX,
        ensures
            r == window(self.cursor, visible, total),
    {
        scroll_window(self.cursor, visible, total)
    }

    /// Switches to the other mode and goes back to the top of the list.
    pub fn cycle_mode(&mut self)
        ensures
            final(self).mode == next_profile_mode(old(self).mode),
            final(self).cursor == 0,
            final(self).scroll == 0,
            final(self).input == old(self).input,
            final(self).copy_current == old(self).copy_current,
    {
        self.mode = self.mode.next();
        self.cursor = 0;
        self.scroll = 0;
    }
}

} // verus!
