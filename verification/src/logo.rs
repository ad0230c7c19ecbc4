//! The rooster logo and the goodbye banner.
use vstd::prelude::*;

use crate::text::{chars_of, concat_chars, string_from_chars};

verus! {

pub const ROOST_LOGO: &'static str = r#"
                  ,.
                 (\(\)
 ,_              ;  o >
  {`-.          /  (_)
  `={\`-._____/`   |
   `-{ /    -=`\   |
    `={  -= = _/   /
       `\  .-'   /`               _ __ ___   ___  ___| |_
        {`-,__.'=                | '__/ _ \ / _ \/ __| __|
         ||                      | | | (_) | (_) \__ \ |_
         | \                     |_|  \___/ \___/|___/\__|
 --------/\/\---------------------------------------------
"#;

pub const TALKING_LOGO_HEAD: &'static str = r#"                  ,.
                 (\(\)
 ,_              ;  o >   "#;

pub const TALKING_LOGO_TAIL: &'static str = r#"
  {`-.          /  (_)
  `={\`-._____/`   |
   `-{ /    -=`\   |
    `={  -= = _/   /
       `\  .-'   /`               _ __ ___   ___  ___| |_
        {`-,__.'=                | '__/ _ \ / _ \/ __| __|
         ||                      | | | (_) | (_) \__ \ |_
         | \                     |_|  \___/ \___/|___/\__|
 --------/\/\---------------------------------------------
"#;

/// Goodbye lines the rooster picks from.
pub const GOODBYES: [&'static str; 5] = [
    "bye bye",
    "l8r sk8r",
    "cya dude",
    "bye *b*tch",
    "until next time",
];

/// The goodbye line chosen by `seed` (the process id when the banner is shown).
pub fn pick_random_goodbye(seed: usize) -> (r: &'static str)
    ensures
        r@ == GOODBYES@[(seed % 5) as int]@,
{
    GOODBYES[seed % 5]
}

/// The talking rooster saying the goodbye chosen by `seed`.
pub fn random_exit_banner(seed: usize) -> (r: String)
    ensures
        r@ == TALKING_LOGO_HEAD@ + GOODBYES@[(seed % 5) as int]@ + TALKING_LOGO_TAIL@,
{
    let head = chars_of(TALKING_LOGO_HEAD);
    let bye = chars_of(pick_random_goodbye(seed));
    let tail = chars_of(TALKING_LOGO_TAIL);
    let a = concat_chars(head.as_slice(), bye.as_slice());
    let b = concat_chars(a.as_slice(), tail.as_slice());
    string_from_chars(b.as_slice())
}

} // verus!
