//! Reusable yes/no confirmation dialog.
use vstd::prelude::*;

verus! {

/// The action that triggered the confirmation dialog.
#[derive(Debug, Clone, Copy, PartialEq, Eq, Structural)]
pub enum ConfirmAction {
    Confirm,
    Discard,
}

/// Border colour of a confirmation dialog.
#[derive(Debug, Clone, Copy, PartialEq, Eq, Structural)]
pub enum DialogColor {
    Red,
    Yellow,
}

/// A yes/no dialog: `confirmed` is `None` while it waits for an answer.
pub struct ConfirmDialog {
    pub title: String,
    pub message: String,
    pub border_color: DialogColor,
    pub action: ConfirmAction,
    pub confirmed: Option<bool>,
}

impl ConfirmDialog {
    pub fn new(title: String, message: String, border_color: DialogColor, action: ConfirmAction) -> (r: Self)
        ensures
            r.title == title,
            r.message == message,
            r.border_color == border_color,
            r.action == action,
            r.confirmed is None,
    {
        ConfirmDialog { title, message, border_color, action, confirmed: None }
    }

    /// A red dialog for an action that throws something away.
    pub fn destructive(title: String, message: String) -> (r: Self)
        ensures
            r.title == title,
            r.message == message,
            r.border_color == DialogColor::Red,
            r.action == ConfirmAction::Discard,
            r.confirmed is None,
    {
        Self::new(title, message, DialogColor::Red, ConfirmAction::Discard)
    }

    /// A yellow dialog for an action that goes ahead.
    pub fn affirmative(title: String, message: String) -> (r: Self)
        ensures
            r.title == title,
            r.message == message,
            r.border_color == DialogColor::Yellow,
            r.action == ConfirmAction::Confirm,
            r.confirmed is None,
    {
        Self::new(title, message, DialogColor::Yellow, ConfirmAction::Confirm)
    }

    /// Whether the dialog still waits for an answer.
    pub fn is_active(&self) -> (r: bool)
        ensures
            r == self.confirmed is None,
    {
        self.confirmed.is_none()
    }

    pub fn confirm(&mut self)
        ensures
            final(self).confirmed == Some(true),
            final(self).title == old(self).title,
            final(self).message == old(self).message,
            final(self).border_color == old(self).border_color,
            final(self).action == old(self).action,
    {
        self.confirmed = Some(true);
    }

    pub fn cancel(&mut self)
        ensures
            final(self).confirmed == Some(false),
            final(self).title == old(self).title,
            final(self).message == old(self).message,
            final(self).border_color == old(self).border_color,
            final(self).action == old(self).action,
    {
        self.confirmed = Some(false);
    }

    /// Hands out the answer once: afterwards the dialog holds none.
    pub fn take_result(&mut self) -> (r: Option<bool>)
        ensures
            r == old(self).confirmed,
            final(self).confirmed is None,
            final(self).title == old(self).title,
            final(self).message == old(self).message,
            final(self).border_color == old(self).border_color,
            final(self).action == old(self).action,
    {
        let r = self.confirmed;
        self.confirmed = None;
        r
    }
}

} // verus!
