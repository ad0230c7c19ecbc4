//! App link wizard: import-from (`f`) or paste-into (`m`).
//!
//! Two-step flow:
//! 1. Select target profile from list.
//! 2. For import: select app from that profile.
//!    For paste: confirm copy of current app to that profile.
use vstd::prelude::*;

use super::{scroll_window, window};

verus! {

#[derive(Debug, Clone, Copy, PartialEq, Eq, Structural)]
pub enum AppLinkAction {
    Import,
    Copy,
}

#[derive(Debug, Clone, Copy, PartialEq, Eq, Structural)]
pub enum AppLinkStep {
    PickProfile,
    PickApp,
    ConfirmCopy,
}

pub struct AppLinkState {
    pub action: AppLinkAction,
    pub step: AppLinkStep,
    pub cursor: usize,
    pub scroll: usize,
    pub selected_profile: Option<String>,
}

/// The step after `step`: picking a profile leads to confirming a copy or to picking an
/// app; the last step leads back to picking a profile.
pub open spec fn next_step(action: AppLinkAction, step: AppLinkStep) -> AppLinkStep {
    match step {
        AppLinkStep::PickProfile => if action == AppLinkAction::Copy {
            AppLinkStep::ConfirmCopy
        } else {
            AppLinkStep::PickApp
        },
        AppLinkStep::PickApp => AppLinkStep::PickProfile,
        AppLinkStep::ConfirmCopy => AppLinkStep::PickProfile,
    }
}

impl AppLinkState {
    pub fn new(action: AppLinkAction) -> (r: Self)
        ensures
            r.action == action,
            r.step == AppLinkStep::PickProfile,
            r.cursor == 0,
            r.scroll == 0,
            r.selected_profile is None,
    {
        AppLinkState {
            action,
            step: AppLinkStep::PickProfile,
            cursor: 0,
            scroll: 0,
            selected_profile: None,
        }
    }

    pub fn move_up(&mut self)
        ensures
            final(self).cursor == (if old(self).cursor > 0 {
                (old(self).cursor - 1) as usize
            } else {
                0
            }),
            final(self).action == old(self).action,
            final(self).step == old(self).step,
            final(self).scroll == old(self).scroll,
            final(self).selected_profile == old(self).selected_profile,
    {
        if self.cursor > 0 {
            self.cursor = self.cursor - 1;
        }
    }

    pub fn move_down(&mut self, max: usize)
        ensures
            final(self).cursor == (if old(self).cursor + 1 < max {
                (old(self).cursor + 1) as usize
            } else {
                old(self).cursor
            }),
            final(self).action == old(self).action,
            final(self).step == old(self).step,
            final(self).scroll == old(self).scroll,
            final(self).selected_profile == old(self).selected_profile,
    {
        if self.cursor < max && self.cursor + 1 < max {
            self.cursor = self.cursor + 1;
        }
    }

    pub fn scroll_for_visible(&self, visible: usize, total: usize) -> (r: (usize, usize))
        requires
            total > 0 ==> self.cursor < usize::MAX,
        ensures
            r == window(self.cursor, visible, total),
    {
        scroll_window(self.cursor, visible, total)
    }

    /// Moves to the next step and resets cursor and scroll.
    pub fn advance_step(&mut self)
        ensures
            final(self).step == next_step(old(self).action, old(self).step),
            final(self).cursor == 0,
            final(self).scroll == 0,
            final(self).action == old(self).action,
            final(self).selected_profile == old(self).selected_profile,
    {
        self.step = match self.step {
            AppLinkStep::PickProfile => {
                if self.action == AppLinkAction::Copy {
                    AppLinkStep::ConfirmCopy
                } else {
                    AppLinkStep::PickApp
                }
            },
            AppLinkStep::PickApp => AppLinkStep::PickProfile,
            AppLinkStep::ConfirmCopy => AppLinkStep::PickProfile,
        };
        self.cursor = 0;
        self.scroll = 0;
    }
}

} // verus!
