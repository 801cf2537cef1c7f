//! Telling commands from profile names on the command line.

use vstd::prelude::*;

use crate::text::{chars_eq_str, starts_with_ch, starts_with_char, to_chars};

verus! {

/// Whether `token` starts a command rather than naming a profile.
pub open spec fn spec_is_command_token(token: Seq<char>) -> bool {
    ||| token == "help"@
    ||| token == "ls"@
    ||| token == "mkdir"@
    ||| token == "put"@
    ||| token == "get"@
    ||| token == "rm"@
    ||| token == "completion"@
    ||| token == "config"@
    ||| starts_with_ch(token, '!')
}

/// Whether the first argument on the command line is a command (as opposed
/// to a profile name).
pub fn is_command_token(token: &str) -> (r: bool)
    ensures
        r == spec_is_command_token(token@),
{
    let t = to_chars(token);
    chars_eq_str(&t, "help") || chars_eq_str(&t, "ls") || chars_eq_str(&t, "mkdir")
        || chars_eq_str(&t, "put") || chars_eq_str(&t, "get") || chars_eq_str(&t, "rm")
        || chars_eq_str(&t, "completion") || chars_eq_str(&t, "config") || starts_with_char(&t, '!')
}

} // verus!
