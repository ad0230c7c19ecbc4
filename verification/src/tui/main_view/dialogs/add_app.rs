//! Add-app dialog: a file browser and a name field for adding apps to roost.
use vstd::prelude::*;

use crate::text::{chars_of, pop_char, push_char, string_from_chars, trim, trim_chars};

verus! {

/// Which part of the add-app dialog is focused.
#[derive(Debug, Clone, Copy, PartialEq, Eq, Structural)]
pub enum AddAppFocus {
    Browser,
    NameInput,
}

/// The other part of the dialog.
pub open spec fn other_focus(f: AddAppFocus) -> AddAppFocus {
    match f {
        AddAppFocus::Browser => AddAppFocus::NameInput,
        AddAppFocus::NameInput => AddAppFocus::Browser,
    }
}

/// The name an app gets from its file name: a leading dot is dropped from a dot file.
pub open spec fn name_from_file(file_name: Seq<char>) -> Option<Seq<char>> {
    let name = if file_name.len() > 1 && file_name[0] == '.' {
        file_name.drop_first()
    } else {
        file_name
    };
    if name.len() == 0 {
        None
    } else {
        Some(name)
    }
}

/// Computes [`name_from_file`].
pub fn derived_name(file_name: &str) -> (r: Option<String>)
    ensures
        match r {
            Some(n) => name_from_file(file_name@) == Some(n@),
            None => name_from_file(file_name@) is None,
        },
{
    let cs = chars_of(file_name);
    if cs.len() == 0 {
        return None;
    }
    if cs.len() > 1 && cs[0] == '.' {
        let rest = string_from_chars(vstd::slice::slice_subrange(cs.as_slice(), 1, cs.len()));
        assert(cs@.subrange(1, cs@.len() as int) =~= file_name@.drop_first());
        Some(rest)
    } else {
        Some(file_name.to_owned())
    }
}

/// The name field and focus of the add-app dialog (the browser's columns are kept by the
/// terminal front end).
pub struct AddAppState {
    pub name_input: String,
    pub focus: AddAppFocus,
}

/// The app name the dialog would add: the typed name without surrounding white space if
/// there is one, else the name from the selected file.
pub open spec fn effective_name_of(input: Seq<char>, selected_file: Option<Seq<char>>) -> Option<Seq<char>> {
    if trim(input).len() > 0 {
        Some(trim(input))
    } else {
        match selected_file {
            Some(f) => name_from_file(f),
            None => None,
        }
    }
}

impl AddAppState {
    pub fn new() -> (r: Self)
        ensures
            r.name_input@ == Seq::<char>::empty(),
            r.focus == AddAppFocus::Browser,
    {
        AddAppState { name_input: String::new(), focus: AddAppFocus::Browser }
    }

    pub fn push_char(&mut self, c: char)
        ensures
            final(self).name_input@ == old(self).name_input@.push(c),
            final(self).focus == old(self).focus,
    {
        push_char(&mut self.name_input, c);
    }

    pub fn backspace(&mut self)
        ensures
            final(self).name_input@ == (if old(self).name_input@.len() > 0 {
                old(self).name_input@.drop_last()
            } else {
                old(self).name_input@
            }),
            final(self).focus == old(self).focus,
    {
        pop_char(&mut self.name_input);
    }

    /// The name to add, given the file name of the selected entry.
    pub fn effective_name(&self, selected_file: Option<&str>) -> (r: Option<String>)
        ensures
            match r {
                Some(n) => effective_name_of(self.name_input@, match selected_file {
                    Some(f) => Some(f@),
                    None => None,
                }) == Some(n@),
                None => effective_name_of(self.name_input@, match selected_file {
                    Some(f) => Some(f@),
                    None => None,
                }) is None,
            },
    {
        let v = chars_of(self.name_input.as_str());
        let t = trim_chars(v.as_slice());
        if t.len() > 0 {
            Some(string_from_chars(t.as_slice()))
        } else {
            match selected_file {
                Some(f) => derived_name(f),
                None => None,
            }
        }
    }

    pub fn toggle_focus(&mut self)
        ensures
            final(self).focus == other_focus(old(self).focus),
            final(self).name_input == old(self).name_input,
    {
        self.focus = match self.focus {
            AddAppFocus::Browser => AddAppFocus::NameInput,
            AddAppFocus::NameInput => AddAppFocus::Browser,
        };
    }
}

} // verus!
