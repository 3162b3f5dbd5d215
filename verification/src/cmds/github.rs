//! Where the source of the bot is.

use vstd::prelude::*;
use crate::util::text::str_owned;

verus! {

/// The link to the repository.
pub const LINK: &'static str = "<https://github.com/waterdragen/cmini-rs>";

/// The command that gives the link to the repository.
pub struct Command;

impl Command {
    /// The link to the repository.
    pub fn exec(&self) -> (r: String)
        ensures
            r@ == LINK@,
    {
        str_owned(LINK)
    }

    /// How the command is called.
    pub fn usage(&self) -> (r: &'static str)
        ensures
            r@ == "github"@,
    {
        "github"
    }

    /// What the command does.
    pub fn desc(&self) -> (r: &'static str)
        ensures
            r@ == "get the link of the cmini github repository"@,
    {
        "get the link of the cmini github repository"
    }
}

} // verus!
