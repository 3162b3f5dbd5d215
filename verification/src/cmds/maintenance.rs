//! The maintenance switch: while it is on, only admins are answered.

use vstd::prelude::*;
use crate::util::consts::{is_admin, is_admin_spec};
use crate::util::parser::{get_args, words_of};
use crate::util::text::{str_eq, str_owned};

verus! {

/// What a word asks of the switch: to turn it on, to turn it off, or
/// nothing.
pub open spec fn wanted(word: Seq<char>) -> Option<bool> {
    if word == "on"@ || word == "enable"@ || word == "true"@ {
        Some(true)
    } else if word == "off"@ || word == "disable"@ || word == "false"@ {
        Some(false)
    } else {
        None
    }
}

/// What the first word of the argument asks of the switch.
pub open spec fn request(arg: Seq<char>) -> Option<bool> {
    if words_of(arg).len() == 0 {
        None
    } else {
        wanted(words_of(arg)[0])
    }
}

/// The switch after the command: as an admin asks, else as it was.
pub open spec fn mode_after(arg: Seq<char>, id: u64, mode: bool) -> bool {
    if !is_admin_spec(id) {
        mode
    } else {
        match request(arg) {
            Some(wanted) => wanted,
            None => mode,
        }
    }
}

/// The answer of the command.
pub open spec fn answer(arg: Seq<char>, id: u64, mode: bool) -> Seq<char> {
    if !is_admin_spec(id) {
        "Unauthorized"@
    } else {
        match request(arg) {
            Some(true) => "Maintenance mode enabled"@,
            Some(false) => "Maintenance mode disabled"@,
            None => if mode {
                "Maintenance mode: true"@
            } else {
                "Maintenance mode: false"@
            },
        }
    }
}

/// Whether a caller is answered: every caller while the switch is off, only
/// admins while it is on.
pub fn maintenance_check(id: u64, mode: bool) -> (r: bool)
    ensures
        r == (!mode || is_admin_spec(id)),
{
    if mode {
        return is_admin(id);
    }
    true
}

/// The command that turns the maintenance switch.
pub struct Command;

impl Command {
    /// Turns the switch as an admin asks, or tells how it stands.
    pub fn exec(&self, arg: &str, id: u64, switch: &mut bool) -> (r: String)
        ensures
            *final(switch) == mode_after(arg@, id, *old(switch)),
            r@ == answer(arg@, id, *old(switch)),
    {
        if !is_admin(id) {
            return str_owned("Unauthorized");
        }
        let args = get_args(arg);
        if args.len() > 0 {
            let first = args[0].as_str();
            if str_eq(first, "on") || str_eq(first, "enable") || str_eq(first, "true") {
                *switch = true;
                return str_owned("Maintenance mode enabled");
            }
            if str_eq(first, "off") || str_eq(first, "disable") || str_eq(first, "false") {
                *switch = false;
                return str_owned("Maintenance mode disabled");
            }
        }
        if *switch {
            str_owned("Maintenance mode: true")
        } else {
            str_owned("Maintenance mode: false")
        }
    }
}

} // verus!
