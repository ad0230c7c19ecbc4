//! Dialog states of the main view.
use vstd::prelude::*;

pub mod add_app;
pub mod app_link;
pub mod confirm;
pub mod diff_view;
pub mod git_log;
pub mod help;
pub mod ignore;
pub mod profile;
pub mod undo;

pub use app_link::{AppLinkAction, AppLinkState, AppLinkStep};
pub use diff_view::DiffViewState;
pub use git_log::GitLogState;
pub use help::{keybinds, HelpState, KeybindEntry};
pub use ignore::{IgnoreMode, IgnoreState};
pub use profile::{ProfileMode, ProfileState};
pub use undo::UndoState;

verus! {

/// The rows `[scroll, end)` shown in a list of `total` rows, `visible` at a time, so that
/// the cursor row is on screen: no scrolling until the cursor passes the first screen,
/// then the cursor is the last visible row.
pub open spec fn window(cursor: usize, visible: usize, total: usize) -> (usize, usize) {
    if total == 0 {
        (0, 0)
    } else {
        let scroll: int = if cursor >= visible {
            cursor - visible + 1
        } else {
            0
        };
        let end: int = if scroll + visible < total {
            scroll + visible
        } else {
            total as int
        };
        (scroll as usize, end as usize)
    }
}

/// Computes [`window`].
pub fn scroll_window(cursor: usize, visible: usize, total: usize) -> (r: (usize, usize))
    requires
        total > 0 ==> cursor < usize::MAX,
    ensures
        r == window(cursor, visible, total),
{
    if total == 0 {
        return (0, 0);
    }
    let scroll = if cursor >= visible {
        cursor - visible + 1
    } else {
        0
    };
    let end = if scroll < total && total - scroll > visible {
        scroll + visible
    } else {
        total
    };
    (scroll, end)
}

/// For a cursor inside the list, the window lies inside the list, shows at most `visible`
/// rows, and shows the cursor row whenever at least one row is visible.
pub proof fn lemma_window_shows_cursor(cursor: usize, visible: usize, total: usize)
    requires
        cursor < total,
    ensures
        ({
            let (scroll, end) = window(cursor, visible, total);
            &&& scroll <= end <= total
            &&& end - scroll <= visible
            &&& visible > 0 ==> scroll <= cursor < end
        }),
{
}

} // verus!
