//! Taking a suggestion.

use vstd::prelude::*;
use crate::util::text::str_owned;

verus! {

/// The command that takes a suggestion.
pub struct Command;

impl Command {
    /// Thanks the caller.
    pub fn exec(&self) -> (r: String)
        ensures
            r@ == "Received :)"@,
    {
        str_owned("Received :)")
    }

    /// How the command is called.
    pub fn usage(&self) -> (r: &'static str)
        ensures
            r@ == "suggest <message>"@,
    {
        "suggest <message>"
    }

    /// What the command does.
    pub fn desc(&self) -> (r: &'static str)
        ensures
            r@ == "send me a suggestion for how to improve cmini :)"@,
    {
        "send me a suggestion for how to improve cmini :)"
    }
}

} // verus!
