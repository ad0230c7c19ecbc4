//! Git log browser dialog.
use vstd::prelude::*;

use super::{scroll_window, window};
use crate::git::CommitInfo;

verus! {

pub struct GitLogState {
    pub commits: Vec<CommitInfo>,
    pub cursor: usize,
    pub scroll: usize,
}

impl GitLogState {
    pub fn new(commits: Vec<CommitInfo>) -> (r: Self)
        ensures
            r.commits == commits,
            r.cursor == 0,
            r.scroll == 0,
    {
        GitLogState { commits, cursor: 0, scroll: 0 }
    }

    pub fn move_up(&mut self)
        ensures
            final(self).cursor == (if old(self).cursor > 0 {
                (old(self).cursor - 1) as usize
            } else {
                0
            }),
            final(self).commits == old(self).commits,
            final(self).scroll == old(self).scroll,
    {
        if self.cursor > 0 {
            self.cursor = self.cursor - 1;
        }
    }

    pub fn move_down(&mut self)
        ensures
            final(self).cursor == (if old(self).cursor + 1 < old(self).commits@.len() {
                (old(self).cursor + 1) as usize
            } else {
                old(self).cursor
            }),
            final(self).commits == old(self).commits,
            final(self).scroll == old(self).scroll,
    {
        if self.cursor < self.commits.len() && self.cursor + 1 < self.commits.len() {
            self.cursor = self.cursor + 1;
        }
    }

    pub fn scroll_for_visible(&self, visible: usize) -> (r: (usize, usize))
        requires
            self.commits@.len() > 0 ==> self.cursor < usize::MAX,
        ensures
            r == window(self.cursor, visible, self.commits@.len() as usize),
    {
        scroll_window(self.cursor, visible, self.commits.len())
    }

    /// Hash of the commit under the cursor.
    pub fn selected_hash(&self) -> (r: Option<&str>)
        ensures
            match r {
                Some(h) => self.cursor < self.commits@.len() && h@ == self.commits@[self.cursor as int].hash@,
                None => self.cursor >= self.commits@.len(),
            },
    {
        if self.cursor < self.commits.len() {
            Some(self.commits[self.cursor].hash.as_str())
        } else {
            None
        }
    }
}

} // verus!
