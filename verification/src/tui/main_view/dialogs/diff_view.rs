//! Inline diff viewer dialog.
use vstd::prelude::*;

use crate::text::{chars_of, lines_of, split_lines, string_from_chars};

verus! {

pub struct DiffViewState {
    pub lines: Vec<String>,
    pub scroll: usize,
}

impl DiffViewState {
    /// The diff split into lines, scrolled to the top.
    pub fn new(diff_text: &str) -> (r: Self)
        ensures
            r.lines@.len() == split_lines(diff_text@).len(),
            forall|i: int| 0 <= i < r.lines@.len() ==> #[trigger] r.lines@[i]@ == split_lines(diff_text@)[i],
            r.scroll == 0,
    {
        let chars = chars_of(diff_text);
        let ls = lines_of(chars.as_slice());
        let mut lines: Vec<String> = Vec::new();
        let mut i: usize = 0;
        while i < ls.len()
            invariant
                i <= ls@.len(),
                ls@.len() == split_lines(diff_text@).len(),
                chars@ == diff_text@,
                forall|k: int| 0 <= k < ls@.len() ==> #[trigger] ls@[k]@ == split_lines(diff_text@)[k],
                lines@.len() == i,
                forall|k: int| 0 <= k < i ==> #[trigger] lines@[k]@ == split_lines(diff_text@)[k],
            decreases ls@.len() - i,
        {
            lines.push(string_from_chars(ls[i].as_slice()));
            i = i + 1;
        }
        DiffViewState { lines, scroll: 0 }
    }

    /// Scrolls up one line, stopping at the top.
    pub fn scroll_up(&mut self)
        ensures
            final(self).scroll == (if old(self).scroll > 0 {
                (old(self).scroll - 1) as usize
            } else {
                0
            }),
            final(self).lines == old(self).lines,
    {
        self.scroll = self.scroll.saturating_sub(1);
    }

    /// Scrolls down one line while lines remain below the `visible` ones.
    pub fn scroll_down(&mut self, visible: usize)
        ensures
            final(self).scroll == (if old(self).scroll + visible < old(self).lines@.len() {
                (old(self).scroll + 1) as usize
            } else {
                old(self).scroll
            }),
            final(self).lines == old(self).lines,
    {
        let max = self.lines.len().saturating_sub(visible);
        if self.scroll < max {
            self.scroll = self.scroll + 1;
        }
    }
}

} // verus!
