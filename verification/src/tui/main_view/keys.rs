//! What a key press does in the main view: for each dialog and for the panels, the change
//! it makes and the action it asks for. The event loop reads the keys, carries out the
//! actions and does the file-system and git work that these decisions ask for.
use vstd::prelude::*;

use crate::app::{LocalAppConfig, SharedAppConfig};
use crate::collections::{keys_of, map_get};
use crate::git::{byte_len, short_cut_ok, short_hash, CommitInfo};
use crate::text::{chars_of, concat, has_prefix, pop_char, push_char, starts_with, str_eq, string_from_chars, trim, trim_str};
use crate::text::lowercase_of;
use crate::tui::confirm::{ConfirmAction, ConfirmDialog, DialogColor};
use crate::tui::search::{all_unscored, filter_result, lowered, FuzzyEngine, MAX_CANDIDATE_LEN};

use super::dialogs::app_link::next_step;
use super::dialogs::help::keybind_table;
use super::dialogs::ignore::next_ignore_mode;
use super::dialogs::profile::next_profile_mode;
use super::dialogs::{
    keybinds, AppLinkAction, AppLinkState, AppLinkStep, DiffViewState, GitLogState, HelpState, IgnoreMode,
    IgnoreState, ProfileMode, ProfileState, UndoState,
};
use super::event::Action;
use super::state::{active_apps, app_count, app_cursor_down, app_cursor_up, selected_app, toggled, Focus, SearchState, SearchTarget};

verus! {

/// A key as the main view sees it.
#[derive(Debug, Clone, Copy, PartialEq, Eq, Structural)]
pub enum Key {
    Char(char),
    Enter,
    Esc,
    Tab,
    BackTab,
    Backspace,
    Up,
    Down,
    Left,
    Right,
    Other,
}

/// The keys that move a list cursor up: the Up arrow and `k`.
pub open spec fn is_up(key: Key) -> bool {
    key == Key::Up || key == Key::Char('k')
}

/// The keys that move a list cursor down: the Down arrow and `j`.
pub open spec fn is_down(key: Key) -> bool {
    key == Key::Down || key == Key::Char('j')
}

/// A list cursor after a move up: one row up, stopping at the first.
pub open spec fn cursor_up(c: usize) -> usize {
    if c > 0 {
        (c - 1) as usize
    } else {
        0
    }
}

/// A list cursor after a move down in a list of `max` rows: one row down, stopping at the
/// last.
pub open spec fn cursor_down(c: usize, max: int) -> usize {
    if c + 1 < max {
        (c + 1) as usize
    } else {
        c
    }
}

fn key_is_up(key: Key) -> (r: bool)
    ensures
        r == is_up(key),
{
    match key {
        Key::Up => true,
        Key::Char(c) => c == 'k',
        _ => false,
    }
}

fn key_is_down(key: Key) -> (r: bool)
    ensures
        r == is_down(key),
{
    match key {
        Key::Down => true,
        Key::Char(c) => c == 'j',
        _ => false,
    }
}

/// What a key press in a dialog asks of the view: whether the dialog closes, the action
/// to carry out, and a confirmation dialog to open, if any.
pub struct DialogReply {
    pub close: bool,
    pub action: Action,
    pub confirm: Option<ConfirmDialog>,
}

/// The dialog stays open and nothing is to be done.
pub open spec fn stays(r: DialogReply) -> bool {
    !r.close && r.action is Nop && r.confirm is None
}

/// The dialog closes and nothing is to be done.
pub open spec fn closes_quietly(r: DialogReply) -> bool {
    r.close && r.action is Nop && r.confirm is None
}

fn stay() -> (r: DialogReply)
    ensures
        stays(r),
{
    DialogReply { close: false, action: Action::Nop, confirm: None }
}

fn close_with(action: Action) -> (r: DialogReply)
    ensures
        r.close,
        r.action == action,
        r.confirm is None,
{
    DialogReply { close: true, action, confirm: None }
}

// ------------------------------------------------------------------
// Help, undo and diff dialogs
// ------------------------------------------------------------------

/// What [`help_key`] does.
pub open spec fn help_step(a: HelpState, key: Key, b: HelpState, close: bool) -> bool {
    &&& (close == (key == Key::Esc || key == Key::Char('q')))
    &&& (b.scroll == a.scroll)
    &&& (b.cursor == (if close {
        a.cursor
    } else if is_up(key) {
        cursor_up(a.cursor)
    } else if is_down(key) {
        cursor_down(a.cursor, keybind_table().len() as int)
    } else {
        a.cursor
    }))
}

/// A key in the help dialog: Esc and `q` close it (the result is `true`), the cursor keys
/// move through the keybind rows.
pub fn help_key(help: &mut HelpState, key: Key) -> (close: bool)
    ensures
        help_step(*old(help), key, *final(help), close),
{
    match key {
        Key::Esc => true,
        Key::Char('q') => true,
        _ => {
            if key_is_up(key) {
                help.move_up();
            } else if key_is_down(key) {
                let rows = keybinds();
                help.move_down(rows.len());
            }
            false
        },
    }
}

/// What [`undo_key`] does.
pub open spec fn undo_step(key: Key, r: DialogReply) -> bool {
    &&& (r.confirm is None)
    &&& (r.close == (key == Key::Esc || key == Key::Char('y') || key == Key::Char('Y') || key
        == Key::Char('n') || key == Key::Char('N')))
    &&& ((key == Key::Char('y') || key == Key::Char('Y')) ==> r.action is Undo)
    &&& (!(key == Key::Char('y') || key == Key::Char('Y')) ==> r.action is Nop)
}

/// A key in the undo dialog: `y` asks for the undo, `n` and Esc close the dialog.
pub fn undo_key(key: Key) -> (r: DialogReply)
    ensures
        undo_step(key, r),
{
    match key {
        Key::Esc => close_with(Action::Nop),
        Key::Char('y') => close_with(Action::Undo),
        Key::Char('Y') => close_with(Action::Undo),
        Key::Char('n') => close_with(Action::Nop),
        Key::Char('N') => close_with(Action::Nop),
        _ => stay(),
    }
}

/// What [`diff_view_key`] does.
pub open spec fn diff_step(a: DiffViewState, key: Key, b: DiffViewState, r: DialogReply) -> bool {
    &&& (r.confirm is None)
    &&& (b.lines == a.lines)
    &&& ((key == Key::Esc || key == Key::Char('q')) ==> closes_quietly(r) && b.scroll
        == a.scroll)
    &&& (key == Key::Char('e') ==> r.close && (r.action matches Action::OpenPager(k) && k@
        == "git_diff"@) && b.scroll == a.scroll)
    &&& (is_up(key) ==> stays(r) && b.scroll == cursor_up(a.scroll))
    &&& (is_down(key) ==> stays(r) && b.scroll == (if a.scroll + 1 < a.lines@.len() {
        (a.scroll + 1) as usize
    } else {
        a.scroll
    }))
    &&& (!(key == Key::Esc || key == Key::Char('q') || key == Key::Char('e') || is_up(key)
        || is_down(key)) ==> stays(r) && b.scroll == a.scroll)
}

/// A key in the diff view: Esc and `q` close it, the cursor keys scroll one line, `e`
/// closes it and asks for the diff in the pager.
pub fn diff_view_key(diff: &mut DiffViewState, key: Key) -> (r: DialogReply)
    ensures
        diff_step(*old(diff), key, *final(diff), r),
{
    match key {
        Key::Esc => close_with(Action::Nop),
        Key::Char('q') => close_with(Action::Nop),
        Key::Char('e') => close_with(Action::OpenPager("git_diff".to_string())),
        _ => {
            if key_is_up(key) {
                diff.scroll_up();
            } else if key_is_down(key) {
                diff.scroll_down(1);
            }
            stay()
        },
    }
}

// ------------------------------------------------------------------
// Git log dialog
// ------------------------------------------------------------------

/// The text that a rollback request leaves in the status line until the confirmation
/// dialog is answered; the commit hash follows it.
pub open spec fn rollback_marker() -> Seq<char> {
    "rollback_pending:"@
}

/// `short` is the first seven bytes of `hash`.
pub open spec fn seven_bytes_of(hash: Seq<char>, short: Seq<char>) -> bool {
    exists|m: int| 0 <= m <= hash.len() && short == hash.take(m) && #[trigger] byte_len(hash.take(m)) == 7
}

/// The hash is long enough, and split right, for its first seven bytes to be cut off.
pub open spec fn seven_byte_cut(hash: Seq<char>) -> bool {
    byte_len(hash) >= 7 && short_cut_ok(hash)
}

proof fn lemma_short_is_seven(hash: Seq<char>, short: Seq<char>)
    requires
        byte_len(hash) >= 7,
        exists|m: int| 0 <= m <= hash.len() && short == hash.take(m) && byte_len(hash.take(m)) == if byte_len(hash) < 7 {
            byte_len(hash)
        } else {
            7
        },
    ensures
        seven_bytes_of(hash, short),
{
    let m = choose|m: int| 0 <= m <= hash.len() && short == hash.take(m) && byte_len(hash.take(m)) == if byte_len(hash) < 7 {
        byte_len(hash)
    } else {
        7
    };
    assert(byte_len(hash.take(m)) == 7);
}

/// The question of the rollback confirmation for a commit whose short hash is `short`.
pub open spec fn rollback_question(short: Seq<char>) -> Seq<char> {
    "Rollback to "@ + short
        + "?\n\nWARNING: This is a destructive hard reset and cannot be easily undone."@
}

/// What [`git_log_key`] does.
pub open spec fn git_log_step(a: GitLogState, key: Key, b: GitLogState, r: DialogReply) -> bool {
    &&& (b.commits == a.commits)
    &&& (b.scroll == a.scroll)
    &&& ((key == Key::Esc || key == Key::Char('q')) ==> closes_quietly(r) && b.cursor
        == a.cursor)
    &&& (is_up(key) ==> stays(r) && b.cursor == cursor_up(a.cursor))
    &&& (is_down(key) ==> stays(r) && b.cursor == cursor_down(
        a.cursor,
        a.commits@.len() as int,
    ))
    &&& (key == Key::Char('r') && a.cursor >= a.commits@.len() ==> stays(r))
    &&& (key == Key::Char('r') && a.cursor < a.commits@.len() ==> {
        let hash = a.commits@[a.cursor as int].hash@;
        &&& r.close
        &&& r.action matches Action::SetStatus(s) && s@ == rollback_marker() + hash
        &&& r.confirm matches Some(d) && d.title@ == "Rollback"@ && d.border_color
            == DialogColor::Red && d.action == ConfirmAction::Discard && d.confirmed is None
            && exists|short: Seq<char>| seven_bytes_of(hash, short) && d.message@
                == rollback_question(short)
    })
    &&& (key == Key::Char('r') ==> b.cursor == a.cursor)
    &&& (!(key == Key::Esc || key == Key::Char('q') || key == Key::Char('r') || is_up(key)
        || is_down(key)) ==> stays(r) && b.cursor == a.cursor)
}

/// A key in the git log dialog: Esc and `q` close it, the cursor keys move through the
/// commits, `r` on a commit closes it, opens a confirmation of a rollback to that commit
/// and leaves the rollback marker with the commit's hash in the status line.
pub fn git_log_key(log: &mut GitLogState, key: Key) -> (r: DialogReply)
    requires
        key == Key::Char('r') && old(log).cursor < old(log).commits@.len() ==> seven_byte_cut(
            old(log).commits@[old(log).cursor as int].hash@,
        ),
    ensures
        git_log_step(*old(log), key, *final(log), r),
{
    match key {
        Key::Esc => close_with(Action::Nop),
        Key::Char('q') => close_with(Action::Nop),
        Key::Char('r') => {
            match log.selected_hash() {
                Some(hash) => {
                    let short = short_hash(hash);
                    proof {
                        lemma_short_is_seven(hash@, short@);
                    }
                    let q1 = concat("Rollback to ", short.as_str());
                    let question = concat(
                        q1.as_str(),
                        "?\n\nWARNING: This is a destructive hard reset and cannot be easily undone.",
                    );
                    proof {
                        assert(question@ == rollback_question(short@));
                        assert(hash@ == log.commits@[log.cursor as int].hash@);
                    }
                    let marker = concat("rollback_pending:", hash);
                    let dialog = ConfirmDialog::destructive("Rollback".to_string(), question);
                    DialogReply { close: true, action: Action::SetStatus(marker), confirm: Some(dialog) }
                },
                None => stay(),
            }
        },
        _ => {
            if key_is_up(key) {
                log.move_up();
            } else if key_is_down(key) {
                log.move_down();
            }
            stay()
        },
    }
}

/// The question of the undo dialog for the last commit, whose short hash is `short`.
pub open spec fn undo_question(short: Seq<char>, message: Seq<char>) -> Seq<char> {
    "Undo last commit?\n"@ + short + "  "@ + message
}

/// The question of the undo dialog for the last commit (its first seven hash bytes and
/// its message).
pub fn undo_prompt(last: &CommitInfo) -> (r: String)
    requires
        seven_byte_cut(last.hash@),
    ensures
        exists|short: Seq<char>| seven_bytes_of(last.hash@, short) && r@ == undo_question(
            short,
            last.message@,
        ),
{
    let short = short_hash(last.hash.as_str());
    proof {
        lemma_short_is_seven(last.hash@, short@);
    }
    let a = concat("Undo last commit?\n", short.as_str());
    let b = concat(a.as_str(), "  ");
    concat(b.as_str(), last.message.as_str())
}


// ------------------------------------------------------------------
// Profile dialog
// ------------------------------------------------------------------

/// The profile names in the order the dialog lists them.
pub open spec fn profile_names(shared: SharedAppConfig) -> Seq<Seq<char>> {
    keys_of(shared.profiles@)
}

/// `a` and `b` differ at most in their cursor.
pub open spec fn profile_rest_same(a: ProfileState, b: ProfileState) -> bool {
    a.mode == b.mode && a.scroll == b.scroll && a.input == b.input && a.copy_current == b.copy_current
}

/// What Enter does in the profile dialog: switch to, create or delete a profile.
pub open spec fn profile_enter_reply(p: ProfileState, names: Seq<Seq<char>>, active: Seq<char>, r: DialogReply) -> bool {
    &&& r.confirm is None
    &&& match p.mode {
        ProfileMode::Switch => if p.cursor < names.len() {
            r.close && (r.action matches Action::SwitchProfile(n) && n@ == names[p.cursor as int])
        } else {
            stays(r)
        },
        ProfileMode::Create => if trim(p.input@).len() > 0 {
            r.close && (r.action matches Action::CreateProfile { name, copy_current } && name@ == trim(
                p.input@,
            ) && copy_current == p.copy_current)
        } else {
            stays(r)
        },
        ProfileMode::Delete => if p.cursor < names.len() {
            if names[p.cursor as int] == active {
                !r.close && (r.action matches Action::SetStatus(m) && m@
                    == "Cannot delete the active profile"@)
            } else {
                r.close && (r.action matches Action::DeleteProfile(n) && n@ == names[p.cursor as int])
            }
        } else {
            stays(r)
        },
    }
}

fn profile_enter(p: &ProfileState, shared: &SharedAppConfig, active: &str) -> (r: DialogReply)
    ensures
        profile_enter_reply(*p, profile_names(*shared), active@, r),
{
    broadcast use vstd::string::group_string_axioms;

    match p.mode {
        ProfileMode::Switch => {
            if p.cursor < shared.profiles.len() {
                let name = shared.profiles.key_at(p.cursor).clone();
                close_with(Action::SwitchProfile(name))
            } else {
                stay()
            }
        },
        ProfileMode::Create => {
            let name = trim_str(p.input.as_str());
            if !name.as_str().is_empty() {
                close_with(Action::CreateProfile { name, copy_current: p.copy_current })
            } else {
                stay()
            }
        },
        ProfileMode::Delete => {
            if p.cursor < shared.profiles.len() {
                let name = shared.profiles.key_at(p.cursor);
                if str_eq(name.as_str(), active) {
                    DialogReply {
                        close: false,
                        action: Action::SetStatus("Cannot delete the active profile".to_string()),
                        confirm: None,
                    }
                } else {
                    close_with(Action::DeleteProfile(name.clone()))
                }
            } else {
                stay()
            }
        },
    }
}

/// What [`profile_key`] does.
pub open spec fn profile_step(a: ProfileState, key: Key, shared: SharedAppConfig, active: Seq<char>, b: ProfileState, r: DialogReply) -> bool {
    &&& (key == Key::Esc ==> closes_quietly(r) && b == a)
    &&& (key == Key::Tab ==> stays(r) && b.mode == next_profile_mode(a.mode)
        && b.cursor == 0 && b.scroll == 0 && b.input == a.input
        && b.copy_current == a.copy_current)
    &&& (is_up(key) ==> stays(r) && b.cursor == cursor_up(a.cursor) && profile_rest_same(
        b,
        a,
    ))
    &&& (is_down(key) ==> stays(r) && b.cursor == cursor_down(
        a.cursor,
        if a.mode == ProfileMode::Create {
            0
        } else {
            profile_names(shared).len() as int
        },
    ) && profile_rest_same(b, a))
    &&& (key == Key::Enter ==> b == a && profile_enter_reply(
        a,
        profile_names(shared),
        active,
        r,
    ))
    &&& (a.mode == ProfileMode::Create && key == Key::Char(' ') ==> stays(r)
        && b.copy_current == !a.copy_current && b.mode == a.mode
        && b.cursor == a.cursor && b.scroll == a.scroll && b.input == a.input)
    &&& (forall|c: char|
        a.mode == ProfileMode::Create && key == Key::Char(c) && c != ' ' && c != 'k' && c
            != 'j' ==> stays(r) && b.input@ == a.input@.push(c) && b.mode
            == a.mode && b.cursor == a.cursor && b.scroll == a.scroll && b.copy_current == a.copy_current)
    &&& (a.mode == ProfileMode::Create && key == Key::Backspace ==> stays(r) && b.input@
        == (if a.input@.len() > 0 {
        a.input@.drop_last()
    } else {
        a.input@
    }) && b.mode == a.mode && b.cursor == a.cursor && b.scroll
        == a.scroll && b.copy_current == a.copy_current)
    &&& (!(key == Key::Esc || key == Key::Tab || key == Key::Enter || is_up(key) || is_down(key) || (
    a.mode == ProfileMode::Create && (key is Char || key == Key::Backspace))) ==> stays(r)
        && b == a)
}

/// A key in the profile dialog. Esc closes it; Tab moves to the next mode; the cursor
/// keys move through the profiles (there is no list in Create mode); Enter acts on the
/// mode (see [`profile_enter_reply`]). In Create mode a space toggles whether the new
/// profile copies the current one, Backspace deletes and any other character is typed.
pub fn profile_key(p: &mut ProfileState, key: Key, shared: &SharedAppConfig, active: &str) -> (r: DialogReply)
    ensures
        profile_step(*old(p), key, *shared, active@, *final(p), r),
{
    match key {
        Key::Esc => close_with(Action::Nop),
        Key::Tab => {
            p.cycle_mode();
            stay()
        },
        Key::Enter => profile_enter(p, shared, active),
        _ => {
            if key_is_up(key) {
                p.move_up();
            } else if key_is_down(key) {
                let max = if p.mode == ProfileMode::Create {
                    0
                } else {
                    shared.profiles.len()
                };
                p.move_down(max);
            } else if p.mode == ProfileMode::Create {
                match key {
                    Key::Char(' ') => {
                        p.copy_current = !p.copy_current;
                    },
                    Key::Char(c) => {
                        push_char(&mut p.input, c);
                    },
                    Key::Backspace => {
                        pop_char(&mut p.input);
                    },
                    _ => {},
                }
            }
            stay()
        },
    }
}

// ------------------------------------------------------------------
// Ignore dialog
// ------------------------------------------------------------------

/// What Enter does in the ignore dialog: add the typed pattern, or remove the pattern
/// under the cursor.
pub open spec fn ignore_enter_reply(ig: IgnoreState, patterns: Seq<Seq<char>>, r: DialogReply) -> bool {
    &&& r.confirm is None
    &&& match ig.mode {
        IgnoreMode::Add => if trim(ig.input@).len() > 0 {
            r.close && (r.action matches Action::AddIgnore(pat) && pat@ == trim(ig.input@))
        } else {
            stays(r)
        },
        IgnoreMode::Remove => if ig.cursor < patterns.len() {
            r.close && (r.action matches Action::RemoveIgnore(pat) && pat@ == patterns[ig.cursor as int])
        } else {
            stays(r)
        },
    }
}

fn ignore_enter(ig: &IgnoreState, shared: &SharedAppConfig) -> (r: DialogReply)
    ensures
        ignore_enter_reply(*ig, shared.ignored@, r),
{
    broadcast use vstd::string::group_string_axioms;

    match ig.mode {
        IgnoreMode::Add => {
            let pattern = trim_str(ig.input.as_str());
            if !pattern.as_str().is_empty() {
                close_with(Action::AddIgnore(pattern))
            } else {
                stay()
            }
        },
        IgnoreMode::Remove => {
            if ig.cursor < shared.ignored.len() {
                close_with(Action::RemoveIgnore(shared.ignored.at(ig.cursor).clone()))
            } else {
                stay()
            }
        },
    }
}

/// What [`ignore_key`] does.
pub open spec fn ignore_step(a: IgnoreState, key: Key, shared: SharedAppConfig, b: IgnoreState, r: DialogReply) -> bool {
    &&& (key == Key::Esc ==> closes_quietly(r) && b == a)
    &&& (key == Key::Tab ==> stays(r) && b.mode == next_ignore_mode(a.mode)
        && b.cursor == 0 && b.scroll == 0 && b.input == a.input)
    &&& (is_up(key) ==> stays(r) && b.cursor == cursor_up(a.cursor) && b.mode
        == a.mode && b.scroll == a.scroll && b.input == a.input)
    &&& (is_down(key) ==> stays(r) && b.cursor == cursor_down(
        a.cursor,
        if a.mode == IgnoreMode::Add {
            0
        } else {
            shared.ignored@.len() as int
        },
    ) && b.mode == a.mode && b.scroll == a.scroll && b.input == a.input)
    &&& (key == Key::Enter ==> b == a && ignore_enter_reply(a, shared.ignored@, r))
    &&& (forall|c: char|
        a.mode == IgnoreMode::Add && key == Key::Char(c) && c != 'k' && c != 'j'
            ==> stays(r) && b.input@ == a.input@.push(c) && b.mode
            == a.mode && b.cursor == a.cursor && b.scroll == a.scroll)
    &&& (a.mode == IgnoreMode::Add && key == Key::Backspace ==> stays(r) && b.input@
        == (if a.input@.len() > 0 {
        a.input@.drop_last()
    } else {
        a.input@
    }) && b.mode == a.mode && b.cursor == a.cursor && b.scroll == a.scroll)
    &&& (!(key == Key::Esc || key == Key::Tab || key == Key::Enter || is_up(key) || is_down(key) || (
    a.mode == IgnoreMode::Add && (key is Char || key == Key::Backspace))) ==> stays(r)
        && b == a)
}

/// A key in the ignore dialog. Esc closes it; Tab moves to the other mode; the cursor keys
/// move through the patterns (there is no list in Add mode); Enter acts on the mode (see
/// [`ignore_enter_reply`]). In Add mode Backspace deletes and any other character is typed.
pub fn ignore_key(ig: &mut IgnoreState, key: Key, shared: &SharedAppConfig) -> (r: DialogReply)
    ensures
        ignore_step(*old(ig), key, *shared, *final(ig), r),
{
    match key {
        Key::Esc => close_with(Action::Nop),
        Key::Tab => {
            ig.cycle_mode();
            stay()
        },
        Key::Enter => ignore_enter(ig, shared),
        _ => {
            if key_is_up(key) {
                ig.move_up();
            } else if key_is_down(key) {
                let max = if ig.mode == IgnoreMode::Add {
                    0
                } else {
                    shared.ignored.len()
                };
                ig.move_down(max);
            } else if ig.mode == IgnoreMode::Add {
                match key {
                    Key::Char(c) => {
                        push_char(&mut ig.input, c);
                    },
                    Key::Backspace => {
                        pop_char(&mut ig.input);
                    },
                    _ => {},
                }
            }
            stay()
        },
    }
}

// ------------------------------------------------------------------
// App link dialog
// ------------------------------------------------------------------

/// The apps of the profile that the dialog picked, in the order it lists them (none
/// before a profile is picked).
pub open spec fn picked_apps(a: AppLinkState, shared: SharedAppConfig) -> Seq<Seq<char>> {
    match a.selected_profile {
        Some(p) => active_apps(shared.profiles@, p@),
        None => Seq::empty(),
    }
}

/// The app under the cursor of the apps panel, if there is one.
pub open spec fn panel_app(shared: SharedAppConfig, active: Seq<char>, app_cursor: usize) -> Option<Seq<char>> {
    if app_cursor < active_apps(shared.profiles@, active).len() {
        Some(active_apps(shared.profiles@, active)[app_cursor as int])
    } else {
        None
    }
}

/// How many rows the app link dialog lists at its step.
pub open spec fn app_link_rows(a: AppLinkState, shared: SharedAppConfig) -> int {
    match a.step {
        AppLinkStep::PickProfile => profile_names(shared).len() as int,
        AppLinkStep::PickApp => picked_apps(a, shared).len() as int,
        AppLinkStep::ConfirmCopy => 0,
    }
}

/// What Enter does in the app link dialog: pick the profile under the cursor and go on, or
/// import the app under the cursor from the picked profile, or copy the selected app of the
/// apps panel to the picked profile.
pub open spec fn app_link_enter(
    a: AppLinkState,
    f: AppLinkState,
    shared: SharedAppConfig,
    panel: Option<Seq<char>>,
    r: DialogReply,
) -> bool {
    &&& r.confirm is None
    &&& match a.step {
        AppLinkStep::PickProfile => stays(r) && if a.cursor < profile_names(shared).len() {
            &&& f.selected_profile matches Some(p) && p@ == profile_names(shared)[a.cursor as int]
            &&& f.step == next_step(a.action, a.step)
            &&& f.cursor == 0 && f.scroll == 0 && f.action == a.action
        } else {
            f == a
        },
        AppLinkStep::PickApp => f == a && match a.selected_profile {
            Some(p) => if a.cursor < picked_apps(a, shared).len() {
                r.close && (r.action matches Action::ImportApp { app, source_profile } && app@
                    == picked_apps(a, shared)[a.cursor as int] && source_profile@ == p@)
            } else {
                stays(r)
            },
            None => stays(r),
        },
        AppLinkStep::ConfirmCopy => f == a && match (a.selected_profile, panel) {
            (Some(p), Some(app_name)) => r.close && (r.action matches Action::CopyApp {
                app,
                target_profile,
            } && app@ == app_name && target_profile@ == p@),
            _ => stays(r),
        },
    }
}

fn app_link_enter_exec(a: &mut AppLinkState, shared: &SharedAppConfig, active: &str, app_cursor: usize) -> (r: DialogReply)
    ensures
        app_link_enter(*old(a), *final(a), *shared, panel_app(*shared, active@, app_cursor), r),
{
    match a.step {
        AppLinkStep::PickProfile => {
            if a.cursor < shared.profiles.len() {
                let name = shared.profiles.key_at(a.cursor).clone();
                a.selected_profile = Some(name);
                a.advance_step();
            }
            stay()
        },
        AppLinkStep::PickApp => {
            match &a.selected_profile {
                Some(p) => {
                    match shared.profiles.get(p.as_str()) {
                        Some(prof) => {
                            if a.cursor < prof.apps.len() {
                                let app = prof.apps.at(a.cursor).clone();
                                close_with(Action::ImportApp { app, source_profile: p.clone() })
                            } else {
                                stay()
                            }
                        },
                        None => stay(),
                    }
                },
                None => stay(),
            }
        },
        AppLinkStep::ConfirmCopy => {
            match &a.selected_profile {
                Some(p) => {
                    match selected_app(shared, active, app_cursor) {
                        Some(app) => close_with(Action::CopyApp { app, target_profile: p.clone() }),
                        None => stay(),
                    }
                },
                None => stay(),
            }
        },
    }
}

/// What [`app_link_key`] does.
pub open spec fn app_link_step(a0: AppLinkState, key: Key, shared: SharedAppConfig, active: Seq<char>, app_cursor: usize, a1: AppLinkState, r: DialogReply) -> bool {
    &&& (key == Key::Esc ==> closes_quietly(r) && a1 == a0)
    &&& (is_up(key) ==> stays(r) && a1 == (AppLinkState { cursor: cursor_up(a0.cursor), ..a0 }))
    &&& (is_down(key) ==> stays(r) && a1 == (AppLinkState {
        cursor: cursor_down(a0.cursor, app_link_rows(a0, shared)),
        ..a0
    }))
    &&& (key == Key::Enter ==> app_link_enter(a0, a1, shared, panel_app(shared, active, app_cursor), r))
    &&& (!(key == Key::Esc || key == Key::Enter || is_up(key) || is_down(key)) ==> stays(r) && a1
        == a0)
}

/// A key in the app link dialog. Esc closes it; the cursor keys move through the rows of
/// the step (see [`app_link_rows`]); Enter acts on the step (see [`app_link_enter`]).
pub fn app_link_key(a: &mut AppLinkState, key: Key, shared: &SharedAppConfig, active: &str, app_cursor: usize) -> (r: DialogReply)
    ensures
        app_link_step(*old(a), key, *shared, active@, app_cursor, *final(a), r),
{
    match key {
        Key::Esc => close_with(Action::Nop),
        Key::Enter => app_link_enter_exec(a, shared, active, app_cursor),
        _ => {
            if key_is_up(key) {
                a.move_up();
            } else if key_is_down(key) {
                let max = match a.step {
                    AppLinkStep::PickProfile => shared.profiles.len(),
                    AppLinkStep::PickApp => match &a.selected_profile {
                        Some(p) => match shared.profiles.get(p.as_str()) {
                            Some(prof) => prof.apps.len(),
                            None => 0,
                        },
                        None => 0,
                    },
                    AppLinkStep::ConfirmCopy => 0,
                };
                a.move_down(max);
            }
            stay()
        },
    }
}

// ------------------------------------------------------------------
// Confirmation dialog
// ------------------------------------------------------------------

/// The answer a key gives to a confirmation dialog that held `before`: `y` says yes, `n`
/// and Esc say no, other keys leave it as it was.
pub open spec fn answer_of(key: Key, before: Option<bool>) -> Option<bool> {
    if key == Key::Char('y') || key == Key::Char('Y') {
        Some(true)
    } else if key == Key::Char('n') || key == Key::Char('N') || key == Key::Esc {
        Some(false)
    } else {
        before
    }
}

/// The status line holds a pending rollback.
pub open spec fn rollback_pending(status: Option<String>) -> bool {
    status matches Some(m) && has_prefix(m@, rollback_marker())
}

/// The characters of `c` from position `from` on, as a string.
fn chars_from(c: &[char], from: usize) -> (r: String)
    requires
        from <= c@.len(),
    ensures
        r@ == c@.skip(from as int),
{
    let mut out: Vec<char> = Vec::new();
    let mut i: usize = from;
    while i < c.len()
        invariant
            from <= i <= c@.len(),
            out@ == c@.subrange(from as int, i as int),
        decreases c@.len() - i,
    {
        out.push(c[i]);
        i = i + 1;
        proof {
            assert(out@ =~= c@.subrange(from as int, i as int));
        }
    }
    proof {
        assert(c@.subrange(from as int, c@.len() as int) =~= c@.skip(from as int));
    }
    string_from_chars(out.as_slice())
}

/// What [`confirm_key`] does.
pub open spec fn confirm_step(a: ConfirmDialog, s0: Option<String>, key: Key, b: ConfirmDialog, s1: Option<String>, r: DialogReply) -> bool {
    &&& (b.confirmed is None)
    &&& (b.title == a.title)
    &&& (b.message == a.message)
    &&& (b.border_color == a.border_color)
    &&& (b.action == a.action)
    &&& (r.confirm is None)
    &&& (answer_of(key, a.confirmed) is None ==> stays(r) && s1 == s0)
    &&& (answer_of(key, a.confirmed) == Some(false) ==> closes_quietly(r) && s1
        == (if rollback_pending(s0) {
        None
    } else {
        s0
    }))
    &&& (answer_of(key, a.confirmed) == Some(true) ==> r.close && if rollback_pending(s0) {
        &&& r.action matches Action::Rollback(h) && h@ == s0->0@.skip(rollback_marker().len() as int)
        &&& s1 is None
    } else {
        r.action is Quit && s1 == s0
    })
}

/// A key in a confirmation dialog. `y` answers yes, `n` and Esc answer no. Once answered
/// the dialog closes: a yes with a pending rollback in the status line asks for that
/// rollback and clears the status line, any other yes asks to quit; a no clears a pending
/// rollback and asks for nothing.
pub fn confirm_key(dialog: &mut ConfirmDialog, key: Key, status: &mut Option<String>) -> (r: DialogReply)
    ensures
        confirm_step(*old(dialog), *old(status), key, *final(dialog), *final(status), r),
{
    match key {
        Key::Char('y') => dialog.confirm(),
        Key::Char('Y') => dialog.confirm(),
        Key::Char('n') => dialog.cancel(),
        Key::Char('N') => dialog.cancel(),
        Key::Esc => dialog.cancel(),
        _ => {},
    }
    match dialog.take_result() {
        None => stay(),
        Some(yes) => {
            let marker = chars_of("rollback_pending:");
            let pending: Option<Vec<char>> = match status {
                Some(m) => {
                    let mc = chars_of(m.as_str());
                    if starts_with(mc.as_slice(), marker.as_slice()) {
                        Some(mc)
                    } else {
                        None
                    }
                },
                None => None,
            };
            match pending {
                Some(mc) => {
                    *status = None;
                    if yes {
                        let hash = chars_from(mc.as_slice(), marker.len());
                        close_with(Action::Rollback(hash))
                    } else {
                        close_with(Action::Nop)
                    }
                },
                None => {
                    if yes {
                        close_with(Action::Quit)
                    } else {
                        close_with(Action::Nop)
                    }
                },
            }
        },
    }
}

// ------------------------------------------------------------------
// Search overlay
// ------------------------------------------------------------------

/// What a key press in the search overlay asks of the view: whether the overlay closes,
/// and the row to move the searched panel's cursor to.
pub struct SearchReply {
    pub close: bool,
    pub select: Option<usize>,
}

/// The candidate index of the match under the engine's cursor.
pub open spec fn engine_selection(e: FuzzyEngine) -> Option<usize> {
    if e.cursor_spec() < e.matches_spec().len() {
        Some(e.matches_spec()[e.cursor_spec() as int].index)
    } else {
        None
    }
}

/// Every candidate is short enough to be scored.
pub open spec fn scorable(items: Seq<&str>) -> bool {
    forall|i: int| 0 <= i < items.len() ==> (#[trigger] lowercase_of(items[i]@)).len() < MAX_CANDIDATE_LEN
}

/// `f` is the engine `e` with its query set to `q` and then filtered over `items` (with
/// the matches of `e` kept when a candidate is too long to be scored).
pub open spec fn refiltered(e: FuzzyEngine, q: Seq<char>, items: Seq<&str>, f: FuzzyEngine) -> bool {
    &&& f.query_spec() == q
    &&& if scorable(items) {
        &&& f.wf()
        &&& lowercase_of(q).len() == 0 ==> all_unscored(items.len() as int, f.matches_spec())
        &&& lowercase_of(q).len() > 0 ==> filter_result(lowercase_of(q), lowered(items), f.matches_spec())
    } else {
        f.matches_spec() == e.matches_spec() && f.cursor_spec() == e.cursor_spec()
    }
}

/// What [`search_key`] does.
pub open spec fn search_step(a: SearchState, key: Key, items: Seq<&str>, b: SearchState, r: SearchReply) -> bool {
    &&& (a.engine.wf() ==> b.engine.wf())
    &&& (b.target == a.target)
    &&& (b.visible == a.visible)
    &&& (key == Key::Esc ==> r.close && r.select is None && b.engine == a.engine)
    &&& (key == Key::Enter ==> r.close && r.select == engine_selection(a.engine) && b.engine == a.engine)
    &&& (is_up(key) ==> !r.close && b.engine.query_spec() == a.engine.query_spec()
        && b.engine.matches_spec() == a.engine.matches_spec()
        && b.engine.cursor_spec() == (if a.engine.cursor_spec() > 0 {
        a.engine.cursor_spec() - 1
    } else {
        0
    }) && r.select == engine_selection(b.engine))
    &&& (is_down(key) ==> !r.close && b.engine.query_spec() == a.engine.query_spec()
        && b.engine.matches_spec() == a.engine.matches_spec()
        && b.engine.cursor_spec() == (if a.engine.cursor_spec() + 1 < a.engine.matches_spec().len() {
        a.engine.cursor_spec() + 1
    } else {
        a.engine.cursor_spec()
    }) && r.select == engine_selection(b.engine))
    &&& (key == Key::Backspace && a.engine.query_spec().len() > 0 ==> !r.close && refiltered(
        a.engine,
        a.engine.query_spec().drop_last(),
        items,
        b.engine,
    ) && r.select == engine_selection(b.engine))
    &&& (key == Key::Backspace && a.engine.query_spec().len() == 0 ==> !r.close && r.select is None
        && b.engine == a.engine)
    &&& (forall|c: char|
        key == Key::Char(c) && c != 'k' && c != 'j' ==> !r.close && refiltered(
            a.engine,
            a.engine.query_spec().push(c),
            items,
            b.engine,
        ) && r.select == engine_selection(b.engine))
    &&& (!(key == Key::Esc || key == Key::Enter || key == Key::Backspace || is_up(key) || is_down(key)
        || key is Char) ==> !r.close && r.select is None && b.engine == a.engine)
}

/// Typing in the search overlay, or deleting from its query, selects only rows that exist:
/// the selected row is one of the candidates (when every candidate can be scored).
pub proof fn lemma_search_selects_a_candidate(a: SearchState, key: Key, items: Seq<&str>, b: SearchState, r: SearchReply)
    requires
        search_step(a, key, items, b, r),
        scorable(items),
        (key is Char && key != Key::Char('k') && key != Key::Char('j')) || (key == Key::Backspace
            && a.engine.query_spec().len() > 0),
    ensures
        r.select matches Some(i) ==> i < items.len(),
{
    let q = if key == Key::Backspace {
        a.engine.query_spec().drop_last()
    } else {
        a.engine.query_spec().push(key->Char_0)
    };
    assert(refiltered(a.engine, q, items, b.engine));
    if r.select matches Some(i) {
        let f = b.engine;
        let k = f.cursor_spec() as int;
        assert(k < f.matches_spec().len());
        if lowercase_of(q).len() == 0 {
            assert(all_unscored(items.len() as int, f.matches_spec()));
            assert(f.matches_spec()[k]@ == (k as usize, 0i32, Seq::<usize>::empty()));
        } else {
            assert(filter_result(lowercase_of(q), lowered(items), f.matches_spec()));
            assert(f.matches_spec()[k].index < lowered(items).len());
        }
    }
}

/// A key in the search overlay over the candidates `items`. Esc closes it; Enter closes it
/// and selects the match under the cursor; the cursor keys move through the matches and
/// select; Backspace deletes a character of a non-empty query, any other character is
/// typed, and both filter again and select.
pub fn search_key(search: &mut SearchState, key: Key, items: &[&str]) -> (r: SearchReply)
    ensures
        search_step(*old(search), key, items@, *final(search), r),
{
    match key {
        Key::Esc => SearchReply { close: true, select: None },
        Key::Enter => SearchReply { close: true, select: search.engine.selected_index() },
        Key::Backspace => {
            if search.engine.is_active() {
                search.engine.backspace();
                let _ = search.engine.filter_checked(items);
                SearchReply { close: false, select: search.engine.selected_index() }
            } else {
                SearchReply { close: false, select: None }
            }
        },
        _ => {
            if key_is_up(key) {
                search.engine.move_up();
                SearchReply { close: false, select: search.engine.selected_index() }
            } else if key_is_down(key) {
                search.engine.move_down();
                SearchReply { close: false, select: search.engine.selected_index() }
            } else {
                match key {
                    Key::Char(c) => {
                        search.engine.push_char(c);
                        let _ = search.engine.filter_checked(items);
                        SearchReply { close: false, select: search.engine.selected_index() }
                    },
                    _ => SearchReply { close: false, select: None },
                }
            }
        },
    }
}

// ------------------------------------------------------------------
// Panels
// ------------------------------------------------------------------

/// What the files panel has at its cursor, read from the file system by the caller:
/// whether the panel shows its root, whether the entry is a directory, and its path.
pub struct FilesCursor {
    pub at_root: bool,
    pub is_dir: bool,
    pub path: Option<String>,
}

/// The part of the main view that a key press on the panels changes itself.
pub struct Panels {
    pub focus: Focus,
    pub app_cursor: usize,
    pub status_message: Option<String>,
}

/// What a key press on the panels asks of the view besides its action: a move in the files
/// panel, or a dialog or overlay to open. The git dialogs ask the caller to read the
/// repository first.
pub enum PanelCommand {
    Nothing,
    FilesDown,
    FilesUp,
    FilesParent,
    FilesEnter,
    OpenSearch(SearchTarget),
    OpenConfirm(ConfirmDialog),
    OpenIgnore,
    OpenProfile,
    OpenHelp,
    OpenAppLink(AppLinkAction),
    ShowGitLog,
    ShowDiff,
    OfferUndo,
}

/// The reply to a key press on the panels.
pub struct PanelReply {
    pub command: PanelCommand,
    pub action: Action,
}

/// `d` is a fresh confirmation dialog with this title and message, red when `red` (for a
/// destructive action), yellow otherwise.
pub open spec fn fresh_dialog(d: ConfirmDialog, title: Seq<char>, message: Seq<char>, red: bool) -> bool {
    &&& d.title@ == title
    &&& d.message@ == message
    &&& d.confirmed is None
    &&& if red {
        d.border_color == DialogColor::Red && d.action == ConfirmAction::Discard
    } else {
        d.border_color == DialogColor::Yellow && d.action == ConfirmAction::Confirm
    }
}

/// The file that `o` opens for the selected app: its primary config, as linked on this
/// device when the device has a link path for the app.
pub open spec fn primary_to_open(shared: SharedAppConfig, local: LocalAppConfig, sel: Option<Seq<char>>) -> Option<Seq<char>> {
    match sel {
        Some(a) => match map_get(shared.apps@, a) {
            Some(ap) => match ap.primary_config {
                Some(pc) => Some(
                    match map_get(local.link_paths@, a) {
                        Some(l) => l@,
                        None => pc@,
                    },
                ),
                None => None,
            },
            None => None,
        },
        None => None,
    }
}

/// The question before an app is removed.
pub open spec fn remove_question(app: Seq<char>) -> Seq<char> {
    "Remove '"@ + app + "' from roost?"@
}

/// The question before a file becomes an app's primary config.
pub open spec fn primary_question(path: Seq<char>, app: Seq<char>) -> Seq<char> {
    "Set '"@ + path + "' as primary config for '"@ + app + "'?"@
}

/// The reply to a key on the panels, and the panels after it, on the apps panel.
pub open spec fn apps_panel_reply(
    p: Panels,
    key: Key,
    shared: SharedAppConfig,
    local: LocalAppConfig,
    f: Panels,
    r: PanelReply,
) -> bool {
    let sel = panel_app(shared, local.active_profile@, p.app_cursor);
    let count = active_apps(shared.profiles@, local.active_profile@).len() as int;
    if key == Key::Char('j') {
        f.focus == p.focus && f.app_cursor == cursor_down(p.app_cursor, count) && r.command is Nothing
            && r.action is Nop
    } else if key == Key::Char('k') {
        f.focus == p.focus && f.app_cursor == cursor_up(p.app_cursor) && r.command is Nothing && r.action is Nop
    } else if key == Key::Char('h') {
        f.focus == p.focus && f.app_cursor == p.app_cursor && r.command is Nothing && r.action is Nop
    } else if key == Key::Char('l') {
        f.focus == Focus::FilesPanel && f.app_cursor == p.app_cursor && r.command is Nothing && r.action is Nop
    } else {
        &&& f.focus == p.focus
        &&& f.app_cursor == p.app_cursor
        &&& if key == Key::Char('o') {
            r.command is Nothing && match primary_to_open(shared, local, sel) {
                Some(e) => r.action matches Action::OpenEditor(x) && x@ == e,
                None => r.action matches Action::SetStatus(m) && m@ == "No primary config for this app"@,
            }
        } else if key == Key::Char('x') {
            r.action is Nop && match sel {
                Some(a) => r.command matches PanelCommand::OpenConfirm(d) && fresh_dialog(
                    d,
                    "Remove App"@,
                    remove_question(a),
                    true,
                ),
                None => r.command is Nothing,
            }
        } else if key == Key::Char('f') {
            r.action is Nop && r.command == PanelCommand::OpenAppLink(AppLinkAction::Import)
        } else if key == Key::Char('m') {
            r.action is Nop && r.command == PanelCommand::OpenAppLink(AppLinkAction::Copy)
        } else {
            r.command is Nothing && r.action is Nop
        }
    }
}

/// The reply to a key on the panels, and the panels after it, on the files panel.
pub open spec fn files_panel_reply(
    p: Panels,
    key: Key,
    shared: SharedAppConfig,
    local: LocalAppConfig,
    files: FilesCursor,
    f: Panels,
    r: PanelReply,
) -> bool {
    let sel = panel_app(shared, local.active_profile@, p.app_cursor);
    &&& f.app_cursor == p.app_cursor
    &&& if key == Key::Char('h') && files.at_root {
        f.focus == Focus::AppsPanel && r.command is Nothing && r.action is Nop
    } else {
        &&& f.focus == p.focus
        &&& if key == Key::Char('j') {
            r.command is FilesDown && r.action is Nop
        } else if key == Key::Char('k') {
            r.command is FilesUp && r.action is Nop
        } else if key == Key::Char('h') {
            r.command is FilesParent && r.action is Nop
        } else if key == Key::Char('l') && files.is_dir {
            r.command is FilesEnter && r.action is Nop
        } else if key == Key::Char('l') || key == Key::Char('e') || key == Key::Enter {
            r.command is Nothing && match files.path {
                Some(path) => r.action matches Action::OpenEditor(x) && x@ == path@,
                None => r.action is Nop,
            }
        } else if key == Key::Char('p') {
            r.action is Nop && match (sel, files.path) {
                (Some(a), Some(path)) => r.command matches PanelCommand::OpenConfirm(d) && fresh_dialog(
                    d,
                    "Set Primary"@,
                    primary_question(path@, a),
                    false,
                ),
                _ => r.command is Nothing,
            }
        } else {
            r.command is Nothing && r.action is Nop
        }
    }
}

/// The keys that act the same on both panels.
pub open spec fn global_key(key: Key) -> bool {
    key == Key::Tab || key == Key::Char('/') || key == Key::Char('q') || key == Key::Esc || key
        == Key::Char('s') || key == Key::Char('a') || key == Key::Char('i') || key == Key::Char('P')
        || key == Key::Char('g') || key == Key::Char('d') || key == Key::Char('u') || key == Key::Char(
        '?',
    )
}

/// The reply to a key that acts the same on both panels.
pub open spec fn global_reply(p: Panels, key: Key, unsaved: bool, f: Panels, r: PanelReply) -> bool {
    &&& f.app_cursor == p.app_cursor
    &&& if key == Key::Tab {
        f.focus == toggled(p.focus) && r.command is Nothing && r.action is Nop
    } else {
        &&& f.focus == p.focus
        &&& if key == Key::Char('/') {
            r.action is Nop && r.command == PanelCommand::OpenSearch(
                if p.focus == Focus::AppsPanel {
                    SearchTarget::Apps
                } else {
                    SearchTarget::Files
                },
            )
        } else if key == Key::Char('q') || key == Key::Esc {
            if unsaved {
                r.action is Nop && (r.command matches PanelCommand::OpenConfirm(d) && fresh_dialog(
                    d,
                    "Quit"@,
                    "You have unsaved changes. Quit anyway?"@,
                    true,
                ))
            } else {
                r.action is Quit && r.command is Nothing
            }
        } else if key == Key::Char('s') {
            r.action is Sync && r.command is Nothing
        } else if key == Key::Char('a') {
            r.command is Nothing && (r.action matches Action::SetStatus(m) && m@
                == "Add-app dialog not yet implemented \u{2014} use `roost add <path>`"@)
        } else if key == Key::Char('i') {
            r.action is Nop && r.command is OpenIgnore
        } else if key == Key::Char('P') {
            r.action is Nop && r.command is OpenProfile
        } else if key == Key::Char('g') {
            r.action is Nop && r.command is ShowGitLog
        } else if key == Key::Char('d') {
            r.action is Nop && r.command is ShowDiff
        } else if key == Key::Char('u') {
            r.action is Nop && r.command is OfferUndo
        } else {
            r.action is Nop && r.command is OpenHelp
        }
    }
}

/// A key on the apps panel, for a key that is not global.
fn apps_panel_key(panels: &mut Panels, key: Key, shared: &SharedAppConfig, local: &LocalAppConfig) -> (r: PanelReply)
    requires
        !global_key(key),
    ensures
        apps_panel_reply(*old(panels), key, *shared, *local, *final(panels), r),
        final(panels).status_message == old(panels).status_message,
{
    let active = local.active_profile.as_str();
    match key {
        Key::Char('j') => {
            panels.app_cursor = app_cursor_down(panels.app_cursor, app_count(shared, active));
            PanelReply { command: PanelCommand::Nothing, action: Action::Nop }
        },
        Key::Char('k') => {
            panels.app_cursor = app_cursor_up(panels.app_cursor);
            PanelReply { command: PanelCommand::Nothing, action: Action::Nop }
        },
        Key::Char('l') => {
            panels.focus = Focus::FilesPanel;
            PanelReply { command: PanelCommand::Nothing, action: Action::Nop }
        },
        Key::Char('o') => {
            let sel = selected_app(shared, active, panels.app_cursor);
            let opened: Option<String> = match sel {
                Some(a) => match shared.apps.get(a.as_str()) {
                    Some(ap) => match &ap.primary_config {
                        Some(pc) => match local.link_paths.get(a.as_str()) {
                            Some(l) => Some(l.clone()),
                            None => Some(pc.clone()),
                        },
                        None => None,
                    },
                    None => None,
                },
                None => None,
            };
            match opened {
                Some(e) => PanelReply { command: PanelCommand::Nothing, action: Action::OpenEditor(e) },
                None => PanelReply {
                    command: PanelCommand::Nothing,
                    action: Action::SetStatus("No primary config for this app".to_string()),
                },
            }
        },
        Key::Char('x') => {
            match selected_app(shared, active, panels.app_cursor) {
                Some(a) => {
                    let m1 = concat("Remove '", a.as_str());
                    let m2 = concat(m1.as_str(), "' from roost?");
                    let d = ConfirmDialog::destructive("Remove App".to_string(), m2);
                    PanelReply { command: PanelCommand::OpenConfirm(d), action: Action::Nop }
                },
                None => PanelReply { command: PanelCommand::Nothing, action: Action::Nop },
            }
        },
        Key::Char('f') => PanelReply {
            command: PanelCommand::OpenAppLink(AppLinkAction::Import),
            action: Action::Nop,
        },
        Key::Char('m') => PanelReply {
            command: PanelCommand::OpenAppLink(AppLinkAction::Copy),
            action: Action::Nop,
        },
        _ => PanelReply { command: PanelCommand::Nothing, action: Action::Nop },
    }
}

/// A key on the files panel, for a key that is not global.
fn files_panel_key(
    panels: &mut Panels,
    key: Key,
    shared: &SharedAppConfig,
    local: &LocalAppConfig,
    files: &FilesCursor,
) -> (r: PanelReply)
    requires
        !global_key(key),
    ensures
        files_panel_reply(*old(panels), key, *shared, *local, *files, *final(panels), r),
        final(panels).status_message == old(panels).status_message,
{
    let active = local.active_profile.as_str();
    match key {
        Key::Char('j') => PanelReply { command: PanelCommand::FilesDown, action: Action::Nop },
        Key::Char('k') => PanelReply { command: PanelCommand::FilesUp, action: Action::Nop },
        Key::Char('h') => {
            if files.at_root {
                panels.focus = Focus::AppsPanel;
                PanelReply { command: PanelCommand::Nothing, action: Action::Nop }
            } else {
                PanelReply { command: PanelCommand::FilesParent, action: Action::Nop }
            }
        },
        Key::Char('p') => {
            match (selected_app(shared, active, panels.app_cursor), &files.path) {
                (Some(a), Some(path)) => {
                    let m1 = concat("Set '", path.as_str());
                    let m2 = concat(m1.as_str(), "' as primary config for '");
                    let m3 = concat(m2.as_str(), a.as_str());
                    let m4 = concat(m3.as_str(), "'?");
                    let d = ConfirmDialog::affirmative("Set Primary".to_string(), m4);
                    PanelReply { command: PanelCommand::OpenConfirm(d), action: Action::Nop }
                },
                _ => PanelReply { command: PanelCommand::Nothing, action: Action::Nop },
            }
        },
        _ => {
            let opens = match key {
                Key::Char('l') => !files.is_dir,
                Key::Char('e') => true,
                Key::Enter => true,
                _ => false,
            };
            if key == Key::Char('l') && files.is_dir {
                PanelReply { command: PanelCommand::FilesEnter, action: Action::Nop }
            } else if opens {
                match &files.path {
                    Some(path) => PanelReply {
                        command: PanelCommand::Nothing,
                        action: Action::OpenEditor(path.clone()),
                    },
                    None => PanelReply { command: PanelCommand::Nothing, action: Action::Nop },
                }
            } else {
                PanelReply { command: PanelCommand::Nothing, action: Action::Nop }
            }
        },
    }
}

/// A key that acts the same on both panels.
fn global_panel_key(panels: &mut Panels, key: Key, unsaved: bool) -> (r: PanelReply)
    requires
        global_key(key),
    ensures
        global_reply(*old(panels), key, unsaved, *final(panels), r),
        final(panels).status_message == old(panels).status_message,
{
    match key {
        Key::Tab => {
            panels.focus = panels.focus.toggle();
            PanelReply { command: PanelCommand::Nothing, action: Action::Nop }
        },
        Key::Char('/') => {
            let target = match panels.focus {
                Focus::AppsPanel => SearchTarget::Apps,
                Focus::FilesPanel => SearchTarget::Files,
            };
            PanelReply { command: PanelCommand::OpenSearch(target), action: Action::Nop }
        },
        Key::Char('s') => PanelReply { command: PanelCommand::Nothing, action: Action::Sync },
        Key::Char('a') => PanelReply {
            command: PanelCommand::Nothing,
            action: Action::SetStatus("Add-app dialog not yet implemented \u{2014} use `roost add <path>`".to_string()),
        },
        Key::Char('i') => PanelReply { command: PanelCommand::OpenIgnore, action: Action::Nop },
        Key::Char('P') => PanelReply { command: PanelCommand::OpenProfile, action: Action::Nop },
        Key::Char('g') => PanelReply { command: PanelCommand::ShowGitLog, action: Action::Nop },
        Key::Char('d') => PanelReply { command: PanelCommand::ShowDiff, action: Action::Nop },
        Key::Char('u') => PanelReply { command: PanelCommand::OfferUndo, action: Action::Nop },
        Key::Char('?') => PanelReply { command: PanelCommand::OpenHelp, action: Action::Nop },
        _ => {
            if unsaved {
                let d = ConfirmDialog::destructive(
                    "Quit".to_string(),
                    "You have unsaved changes. Quit anyway?".to_string(),
                );
                PanelReply { command: PanelCommand::OpenConfirm(d), action: Action::Nop }
            } else {
                PanelReply { command: PanelCommand::Nothing, action: Action::Quit }
            }
        },
    }
}

/// What [`base_key`] does.
pub open spec fn base_step(a: Panels, key: Key, shared: SharedAppConfig, local: LocalAppConfig, unsaved: bool, files: FilesCursor, b: Panels, r: PanelReply) -> bool {
    &&& (b.status_message is None)
    &&& (global_key(key) ==> global_reply(a, key, unsaved, b, r))
    &&& (!global_key(key) && a.focus == Focus::AppsPanel ==> apps_panel_reply(
        a,
        key,
        shared,
        local,
        b,
        r,
    ))
    &&& (!global_key(key) && a.focus == Focus::FilesPanel ==> files_panel_reply(
        a,
        key,
        shared,
        local,
        files,
        b,
        r,
    ))
}

/// A key on the panels, when no dialog or overlay is open. It clears the status line
/// first. Keys that act on both panels are in [`global_reply`]; the others act on the
/// focused panel: [`apps_panel_reply`] and [`files_panel_reply`]. `unsaved` tells whether
/// changes wait to be committed.
pub fn base_key(
    panels: &mut Panels,
    key: Key,
    shared: &SharedAppConfig,
    local: &LocalAppConfig,
    unsaved: bool,
    files: &FilesCursor,
) -> (r: PanelReply)
    ensures
        base_step(*old(panels), key, *shared, *local, unsaved, *files, *final(panels), r),
{
    let r = if key_is_global(key) {
        global_panel_key(panels, key, unsaved)
    } else {
        match panels.focus {
            Focus::AppsPanel => apps_panel_key(panels, key, shared, local),
            Focus::FilesPanel => files_panel_key(panels, key, shared, local, files),
        }
    };
    panels.status_message = None;
    r
}

fn key_is_global(key: Key) -> (r: bool)
    ensures
        r == global_key(key),
{
    match key {
        Key::Tab => true,
        Key::Esc => true,
        Key::Char(c) => c == '/' || c == 'q' || c == 's' || c == 'a' || c == 'i' || c == 'P' || c == 'g'
            || c == 'd' || c == 'u' || c == '?',
        _ => false,
    }
}

// ------------------------------------------------------------------
// Routing
// ------------------------------------------------------------------

/// The panels of the main view and the dialogs and overlays that can lie over them.
pub struct Overlays {
    pub panels: Panels,
    pub confirm: Option<ConfirmDialog>,
    pub search: Option<SearchState>,
    pub help: Option<HelpState>,
    pub profile: Option<ProfileState>,
    pub ignore: Option<IgnoreState>,
    pub git_log: Option<GitLogState>,
    pub undo: Option<UndoState>,
    pub app_link: Option<AppLinkState>,
    pub diff: Option<DiffViewState>,
}

/// The layer that takes a key.
#[derive(Debug, Clone, Copy, PartialEq, Eq, Structural)]
pub enum Layer {
    Confirm,
    Search,
    Help,
    Profile,
    Ignore,
    GitLog,
    Undo,
    AppLink,
    Diff,
    Panels,
}

/// The first open layer, in the order confirm, search, help, profile, ignore, git log,
/// undo, app link, diff view; the panels when none is open.
pub open spec fn layer_of(ov: Overlays) -> Layer {
    if ov.confirm is Some {
        Layer::Confirm
    } else if ov.search is Some {
        Layer::Search
    } else if ov.help is Some {
        Layer::Help
    } else if ov.profile is Some {
        Layer::Profile
    } else if ov.ignore is Some {
        Layer::Ignore
    } else if ov.git_log is Some {
        Layer::GitLog
    } else if ov.undo is Some {
        Layer::Undo
    } else if ov.app_link is Some {
        Layer::AppLink
    } else if ov.diff is Some {
        Layer::Diff
    } else {
        Layer::Panels
    }
}

/// What a key press leaves for the event loop: the action to carry out, the panel command
/// that needs the file system or git, and the row a search selected (with the panel it
/// searched).
pub struct KeyOutcome {
    pub action: Action,
    pub command: PanelCommand,
    pub select: Option<(SearchTarget, usize)>,
}

/// `o` asks only for `action`.
pub open spec fn only_action(o: KeyOutcome, action: Action) -> bool {
    o.action == action && o.command is Nothing && o.select is None
}

/// The open dialog `d0` after a key: gone when the reply closes it, else `d1`.
pub open spec fn after<T>(close: bool, d1: T) -> Option<T> {
    if close {
        None
    } else {
        Some(d1)
    }
}

/// What the panels' reply does to the overlays: a dialog that needs nothing from outside
/// is opened here, any other command is handed on.
pub open spec fn panels_applied(a: Overlays, p: Panels, r: PanelReply, b: Overlays, out: KeyOutcome) -> bool {
    &&& out.action == r.action
    &&& out.select is None
    &&& match r.command {
        PanelCommand::OpenConfirm(d) => out.command is Nothing && b == (Overlays { panels: p, confirm: Some(d), ..a }),
        PanelCommand::OpenIgnore => out.command is Nothing && b == (Overlays { panels: p, ignore: b.ignore, ..a })
            && (b.ignore matches Some(i) && i.mode == IgnoreMode::Add && i.cursor == 0 && i.scroll == 0
            && i.input@ == Seq::<char>::empty()),
        PanelCommand::OpenProfile => out.command is Nothing && b == (Overlays { panels: p, profile: b.profile, ..a })
            && (b.profile matches Some(q) && q.mode == ProfileMode::Switch && q.copy_current && q.cursor == 0
            && q.scroll == 0 && q.input@ == Seq::<char>::empty()),
        PanelCommand::OpenHelp => out.command is Nothing && b == (Overlays {
            panels: p,
            help: Some(HelpState { cursor: 0, scroll: 0 }),
            ..a
        }),
        PanelCommand::OpenAppLink(x) => out.command is Nothing && b == (Overlays {
            panels: p,
            app_link: Some(
                AppLinkState { action: x, step: AppLinkStep::PickProfile, cursor: 0, scroll: 0, selected_profile: None },
            ),
            ..a
        }),
        _ => out.command == r.command && b == (Overlays { panels: p, ..a }),
    }
}

/// What a key does to the main view: the first open layer (see [`layer_of`]) takes it as
/// its own step describes, the layer closes when its reply says so, and nothing else
/// changes but what that step opens. `items` are the candidates of an open search.
pub open spec fn key_step(
    a: Overlays,
    key: Key,
    shared: SharedAppConfig,
    local: LocalAppConfig,
    unsaved: bool,
    files: FilesCursor,
    items: Seq<&str>,
    b: Overlays,
    out: KeyOutcome,
) -> bool {
    match layer_of(a) {
        Layer::Confirm => exists|d: ConfirmDialog, s: Option<String>, r: DialogReply|
            confirm_step(a.confirm->0, a.panels.status_message, key, d, s, r) && b == (Overlays {
                confirm: after(r.close, d),
                panels: Panels { status_message: s, ..a.panels },
                ..a
            }) && only_action(out, r.action),
        Layer::Search => exists|q: SearchState, r: SearchReply|
            search_step(a.search->0, key, items, q, r) && b == (Overlays {
                search: after(r.close, q),
                panels: Panels {
                    app_cursor: match r.select {
                        Some(i) => if q.target == SearchTarget::Apps {
                            i
                        } else {
                            a.panels.app_cursor
                        },
                        None => a.panels.app_cursor,
                    },
                    ..a.panels
                },
                ..a
            }) && out.action is Nop && out.command is Nothing && out.select == match r.select {
                Some(i) => Some((q.target, i)),
                None => None,
            },
        Layer::Help => exists|h: HelpState, close: bool|
            help_step(a.help->0, key, h, close) && b == (Overlays { help: after(close, h), ..a })
                && only_action(out, Action::Nop),
        Layer::Profile => exists|q: ProfileState, r: DialogReply|
            profile_step(a.profile->0, key, shared, local.active_profile@, q, r) && b == (Overlays {
                profile: after(r.close, q),
                ..a
            }) && only_action(out, r.action),
        Layer::Ignore => exists|q: IgnoreState, r: DialogReply|
            ignore_step(a.ignore->0, key, shared, q, r) && b == (Overlays { ignore: after(r.close, q), ..a })
                && only_action(out, r.action),
        Layer::GitLog => exists|q: GitLogState, r: DialogReply|
            git_log_step(a.git_log->0, key, q, r) && b == (Overlays {
                git_log: after(r.close, q),
                confirm: r.confirm,
                ..a
            }) && only_action(out, r.action),
        Layer::Undo => exists|r: DialogReply|
            undo_step(key, r) && b == (Overlays { undo: after(r.close, a.undo->0), ..a }) && only_action(
                out,
                r.action,
            ),
        Layer::AppLink => exists|q: AppLinkState, r: DialogReply|
            app_link_step(a.app_link->0, key, shared, local.active_profile@, a.panels.app_cursor, q, r) && b
                == (Overlays { app_link: after(r.close, q), ..a }) && only_action(out, r.action),
        Layer::Diff => exists|q: DiffViewState, r: DialogReply|
            diff_step(a.diff->0, key, q, r) && b == (Overlays { diff: after(r.close, q), ..a }) && only_action(
                out,
                r.action,
            ),
        Layer::Panels => exists|p: Panels, r: PanelReply|
            base_step(a.panels, key, shared, local, unsaved, files, p, r) && panels_applied(a, p, r, b, out),
    }
}

/// Hands a key to the first open layer of the main view (see [`key_step`]).
pub fn handle_key(
    ov: &mut Overlays,
    key: Key,
    shared: &SharedAppConfig,
    local: &LocalAppConfig,
    unsaved: bool,
    files: &FilesCursor,
    items: &[&str],
) -> (out: KeyOutcome)
    requires
        layer_of(*old(ov)) == Layer::GitLog && key == Key::Char('r') && old(ov).git_log->0.cursor < old(ov).git_log->0.commits@.len() ==> seven_byte_cut(
            old(ov).git_log->0.commits@[old(ov).git_log->0.cursor as int].hash@,
        ),
    ensures
        key_step(*old(ov), key, *shared, *local, unsaved, *files, items@, *final(ov), out),
{
    let ghost before = *ov;
    if ov.confirm.is_some() {
        let mut d = ov.confirm.take().unwrap();
        let r = confirm_key(&mut d, key, &mut ov.panels.status_message);
        if !r.close {
            ov.confirm = Some(d);
        }
        return KeyOutcome { action: r.action, command: PanelCommand::Nothing, select: None };
    }
    if ov.search.is_some() {
        let mut q = ov.search.take().unwrap();
        let r = search_key(&mut q, key, items);
        let target = q.target;
        if !r.close {
            ov.search = Some(q);
        }
        let select = match r.select {
            Some(i) => {
                if target == SearchTarget::Apps {
                    ov.panels.app_cursor = i;
                }
                Some((target, i))
            },
            None => None,
        };
        return KeyOutcome { action: Action::Nop, command: PanelCommand::Nothing, select };
    }
    if ov.help.is_some() {
        let mut h = ov.help.take().unwrap();
        let close = help_key(&mut h, key);
        if !close {
            ov.help = Some(h);
        }
        return KeyOutcome { action: Action::Nop, command: PanelCommand::Nothing, select: None };
    }
    if ov.profile.is_some() {
        let mut q = ov.profile.take().unwrap();
        let r = profile_key(&mut q, key, shared, local.active_profile.as_str());
        if !r.close {
            ov.profile = Some(q);
        }
        return KeyOutcome { action: r.action, command: PanelCommand::Nothing, select: None };
    }
    if ov.ignore.is_some() {
        let mut q = ov.ignore.take().unwrap();
        let r = ignore_key(&mut q, key, shared);
        if !r.close {
            ov.ignore = Some(q);
        }
        return KeyOutcome { action: r.action, command: PanelCommand::Nothing, select: None };
    }
    if ov.git_log.is_some() {
        let mut q = ov.git_log.take().unwrap();
        let r = git_log_key(&mut q, key);
        if !r.close {
            ov.git_log = Some(q);
        }
        ov.confirm = r.confirm;
        return KeyOutcome { action: r.action, command: PanelCommand::Nothing, select: None };
    }
    if ov.undo.is_some() {
        let r = undo_key(key);
        if r.close {
            ov.undo = None;
        }
        return KeyOutcome { action: r.action, command: PanelCommand::Nothing, select: None };
    }
    if ov.app_link.is_some() {
        let mut q = ov.app_link.take().unwrap();
        let r = app_link_key(&mut q, key, shared, local.active_profile.as_str(), ov.panels.app_cursor);
        if !r.close {
            ov.app_link = Some(q);
        }
        return KeyOutcome { action: r.action, command: PanelCommand::Nothing, select: None };
    }
    if ov.diff.is_some() {
        let mut q = ov.diff.take().unwrap();
        let r = diff_view_key(&mut q, key);
        if !r.close {
            ov.diff = Some(q);
        }
        return KeyOutcome { action: r.action, command: PanelCommand::Nothing, select: None };
    }
    let reply = base_key(&mut ov.panels, key, shared, local, unsaved, files);
    let ghost p = ov.panels;
    let ghost rr = reply;
    let PanelReply { command, action } = reply;
    let command = match command {
        PanelCommand::OpenConfirm(d) => {
            ov.confirm = Some(d);
            PanelCommand::Nothing
        },
        PanelCommand::OpenIgnore => {
            ov.ignore = Some(IgnoreState::new());
            PanelCommand::Nothing
        },
        PanelCommand::OpenProfile => {
            ov.profile = Some(ProfileState::new());
            PanelCommand::Nothing
        },
        PanelCommand::OpenHelp => {
            ov.help = Some(HelpState::new());
            PanelCommand::Nothing
        },
        PanelCommand::OpenAppLink(x) => {
            ov.app_link = Some(AppLinkState::new(x));
            PanelCommand::Nothing
        },
        other => other,
    };
    let out = KeyOutcome { action, command, select: None };
    proof {
        assert(base_step(before.panels, key, *shared, *local, unsaved, *files, p, rr));
        assert(panels_applied(before, p, rr, *ov, out));
    }
    out
}

} // verus!
