//! Searchable keybind reference dialog.
use vstd::prelude::*;

use super::{scroll_window, window};

verus! {

/// Cursor and scroll position of the help dialog.
pub struct HelpState {
    pub cursor: usize,
    pub scroll: usize,
}

impl HelpState {
    pub fn new() -> (r: Self)
        ensures
            r.cursor == 0,
            r.scroll == 0,
    {
        HelpState { cursor: 0, scroll: 0 }
    }

    pub fn move_up(&mut self)
        ensures
            final(self).cursor == (if old(self).cursor > 0 {
                (old(self).cursor - 1) as usize
            } else {
                0
            }),
            final(self).scroll == old(self).scroll,
    {
        if self.cursor > 0 {
            self.cursor = self.cursor - 1;
        }
    }

    pub fn move_down(&mut self, max: usize)
        ensures
            final(self).cursor == (if old(self).cursor + 1 < max {
                (old(self).cursor + 1) as usize
            } else {
                old(self).cursor
            }),
            final(self).scroll == old(self).scroll,
    {
        if self.cursor < max && self.cursor + 1 < max {
            self.cursor = self.cursor + 1;
        }
    }

    pub fn scroll_for_visible(&self, visible: usize, total: usize) -> (r: (usize, usize))
        requires
            total > 0 ==> self.cursor < usize::MAX,
        ensures
            r == window(self.cursor, visible, total),
    {
        scroll_window(self.cursor, visible, total)
    }
}

/// One row of the keybind reference.
pub struct KeybindEntry {
    pub key: &'static str,
    pub description: &'static str,
}

/// The keybind reference, as (key, description) rows in display order.
pub open spec fn keybind_table() -> Seq<(Seq<char>, Seq<char>)> {
    seq![
        ("j / k"@, "Navigate up / down"@),
        ("h / l"@, "Navigate miller columns (files panel)"@),
        ("Tab"@, "Switch focus between panels"@),
        ("/"@, "Fuzzy search apps or files"@),
        ("o"@, "Open primary config for selected app (apps panel)"@),
        ("x"@, "Remove app from roost"@),
        ("f"@, "Import app from another profile"@),
        ("m"@, "Copy app to another profile"@),
        ("e / Enter"@, "Edit file in $EDITOR (files panel)"@),
        ("p"@, "Set file as primary config (files panel)"@),
        ("a"@, "Add new app to roost"@),
        ("i"@, "Manage ignore patterns"@),
        ("P"@, "Switch / create / delete profiles"@),
        ("s"@, "Save changes (git commit)"@),
        ("S"@, "Sync with remote (pull + push)"@),
        ("g"@, "View git log"@),
        ("d"@, "Show git diff"@),
        ("u"@, "Undo last commit"@),
        ("r"@, "Rollback to selected commit (git log dialog only)"@),
        ("?"@, "Show this help dialog"@),
        ("q / Esc"@, "Quit / close dialog"@),
    ]
}

/// The keybind reference rows.
pub fn keybinds() -> (r: Vec<KeybindEntry>)
    ensures
        r@.len() == keybind_table().len(),
        forall|i: int| 0 <= i < r@.len() ==> (#[trigger] r@[i]).key@ == keybind_table()[i].0 && r@[i].description@ == keybind_table()[i].1,
{
    let mut v: Vec<KeybindEntry> = Vec::new();
    v.push(KeybindEntry { key: "j / k", description: "Navigate up / down" });
    v.push(KeybindEntry { key: "h / l", description: "Navigate miller columns (files panel)" });
    v.push(KeybindEntry { key: "Tab", description: "Switch focus between panels" });
    v.push(KeybindEntry { key: "/", description: "Fuzzy search apps or files" });
    v.push(KeybindEntry { key: "o", description: "Open primary config for selected app (apps panel)" });
    v.push(KeybindEntry { key: "x", description: "Remove app from roost" });
    v.push(KeybindEntry { key: "f", description: "Import app from another profile" });
    v.push(KeybindEntry { key: "m", description: "Copy app to another profile" });
    v.push(KeybindEntry { key: "e / Enter", description: "Edit file in $EDITOR (files panel)" });
    v.push(KeybindEntry { key: "p", description: "Set file as primary config (files panel)" });
    v.push(KeybindEntry { key: "a", description: "Add new app to roost" });
    v.push(KeybindEntry { key: "i", description: "Manage ignore patterns" });
    v.push(KeybindEntry { key: "P", description: "Switch / create / delete profiles" });
    v.push(KeybindEntry { key: "s", description: "Save changes (git commit)" });
    v.push(KeybindEntry { key: "S", description: "Sync with remote (pull + push)" });
    v.push(KeybindEntry { key: "g", description: "View git log" });
    v.push(KeybindEntry { key: "d", description: "Show git diff" });
    v.push(KeybindEntry { key: "u", description: "Undo last commit" });
    v.push(KeybindEntry { key: "r", description: "Rollback to selected commit (git log dialog only)" });
    v.push(KeybindEntry { key: "?", description: "Show this help dialog" });
    v.push(KeybindEntry { key: "q / Esc", description: "Quit / close dialog" });
    v
}

} // verus!
