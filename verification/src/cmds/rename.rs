//! Renaming a layout.

use vstd::prelude::*;
use crate::util::layout::{check_name, check_name_spec};
use crate::util::memory::{rename_post, RenameError, ServerLayouts};
use crate::util::message::{split_word, split_word_spec};
use crate::util::model::LayoutConfig;
use crate::util::text::{push_str, string_of};

verus! {

/// What is said once a layout is renamed.
pub open spec fn renamed_spec(old_name: Seq<char>, new_name: Seq<char>) -> Seq<char> {
    "`"@ + old_name + "` has been renamed to `"@ + new_name + "`"@
}

/// The answer to what the registry did.
pub open spec fn answer(old_name: Seq<char>, new_name: Seq<char>, result: Result<(), RenameError<'_>>) -> Seq<
    char,
> {
    match result {
        Ok(_) => renamed_spec(old_name, new_name),
        Err(e) => e.message(),
    }
}

/// What the command does: the first word of the argument is the old name,
/// the rest the new one. The new name is checked first; then the registry
/// renames, or says why not.
pub open spec fn rename_spec(
    arg: Seq<char>,
    id: u64,
    before: Seq<LayoutConfig>,
    after: Seq<LayoutConfig>,
    r: Seq<char>,
) -> bool {
    let (old_name, new_name) = split_word_spec(arg);
    match check_name_spec(new_name) {
        Err(message) => r == message && after == before,
        Ok(_) => exists|result: Result<(), RenameError<'_>>| #[trigger]
            rename_post(before, after, old_name, new_name, id, result) && r == answer(
                old_name,
                new_name,
                result,
            ),
    }
}

/// The command that renames a layout.
pub struct Command;

impl Command {
    /// Renames a layout of the caller `id`.
    pub fn exec(&self, arg: &str, id: u64, layouts: &mut ServerLayouts) -> (r: String)
        ensures
            rename_spec(arg@, id, old(layouts)@, final(layouts)@, r@),
    {
        let (old_name, new_name) = split_word(arg);
        if let Err(err) = check_name(new_name.as_str()) {
            return err;
        }
        let result = layouts.rename(old_name.as_str(), new_name.as_str(), id);
        let r = match &result {
            Err(err) => err.to_string(),
            Ok(_) => {
                let mut out: Vec<char> = Vec::new();
                push_str(&mut out, "`");
                push_str(&mut out, old_name.as_str());
                push_str(&mut out, "` has been renamed to `");
                push_str(&mut out, new_name.as_str());
                push_str(&mut out, "`");
                assert(out@ =~= renamed_spec(old_name@, new_name@));
                string_of(&out)
            },
        };
        proof {
            assert(rename_post(old(layouts)@, layouts@, old_name@, new_name@, id, result) && r@
                == answer(old_name@, new_name@, result));
        }
        r
    }

    /// How the command is called.
    pub fn usage(&self) -> (r: &'static str)
        ensures
            r@ == "rename <old_layout> <new_layout>"@,
    {
        "rename <old_layout> <new_layout>"
    }

    /// What the command does.
    pub fn desc(&self) -> (r: &'static str)
        ensures
            r@ == "rename one of your layouts"@,
    {
        "rename one of your layouts"
    }
}

} // verus!
