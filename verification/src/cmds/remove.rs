//! Removing a layout.

use vstd::prelude::*;
use crate::util::consts::{is_admin, is_admin_spec};
use crate::util::memory::{remove_post, RemoveError, ServerLayouts};
use crate::util::model::LayoutConfig;
use crate::util::parser::{
    first_names, get_kwargs, join_spec, kw_name, kwarg_value, map_from_vec, next_kw, unknown_post, words_of,
    KwargType, KwargView, ParseKwargError,
};
use crate::util::text::{push_str, string_of};

verus! {

/// What is said once a layout is removed.
pub open spec fn removed_spec(name: Seq<char>) -> Seq<char> {
    "`"@ + name + "` has been removed"@
}

/// What is said of a word that has the form of a keyword and is none.
pub open spec fn invalid_spec(word: Seq<char>) -> Seq<char> {
    "Invalid kwarg: "@ + word
}

/// What is said once a layout is removed.
pub fn removed(name: &str) -> (r: String)
    ensures
        r@ == removed_spec(name@),
{
    let mut out: Vec<char> = Vec::new();
    push_str(&mut out, "`");
    push_str(&mut out, name);
    push_str(&mut out, "` has been removed");
    assert(out@ =~= removed_spec(name@));
    string_of(&out)
}

/// The answer to what the registry did.
pub open spec fn answer(name: Seq<char>, result: Result<LayoutConfig, RemoveError<'_>>) -> Seq<char> {
    match result {
        Ok(_) => removed_spec(name),
        Err(e) => e.message(),
    }
}

/// The answer to what the registry did.
pub fn respond(name: &str, result: &Result<LayoutConfig, RemoveError<'_>>) -> (r: String)
    ensures
        r@ == answer(name@, *result),
{
    match result {
        Ok(_) => removed(name),
        Err(e) => e.to_string(),
    }
}

/// The command that removes a layout.
pub struct Command;

/// What the command does. A caller who is no admin removes the layout that
/// the whole argument names, if it is theirs. An admin's argument is read for
/// the keyword `sudo`: with it the layout is removed whoever owns it. The
/// answer says what was done; the registry changes only where a layout is
/// removed.
pub open spec fn remove_spec(
    arg: Seq<char>,
    id: u64,
    before: Seq<LayoutConfig>,
    after: Seq<LayoutConfig>,
    r: Seq<char>,
) -> bool {
    if !is_admin_spec(id) {
        exists|result: Result<LayoutConfig, RemoveError<'_>>| #[trigger]
            remove_post(before, after, arg, id, false, result) && r == answer(arg, result)
    } else {
        let words = words_of(arg);
        let names = seq!["sudo"@];
        if exists|word: Seq<char>| unknown_post(words, names, word) {
            after == before && exists|word: Seq<char>| #[trigger]
                unknown_post(words, names, word) && r == invalid_spec(word)
        } else {
            let target = join_spec(words.take(next_kw(words, 0)));
            let sudo = kwarg_value(words, "sudo"@, KwargType::Bool) == KwargView::Bool(true);
            exists|result: Result<LayoutConfig, RemoveError<'_>>| #[trigger]
                remove_post(before, after, target, id, sudo, result) && r == answer(target, result)
        }
    }
}

impl Command {
    /// Removes the layout that the argument names, for the caller `id`.
    pub fn exec(&self, arg: &str, id: u64, layouts: &mut ServerLayouts) -> (r: String)
        ensures
            remove_spec(arg@, id, old(layouts)@, final(layouts)@, r@),
    {
        let name = arg;
        if !is_admin(id) {
            let result = layouts.remove(name, id);
            return respond(name, &result);
        }
        let mut keywords: Vec<(&str, KwargType)> = Vec::new();
        keywords.push(("sudo", KwargType::Bool));
        let ghost listed = keywords@;
        let cmd_kwargs = map_from_vec(keywords);
        let ghost names = cmd_kwargs.names();
        let ghost words = words_of(arg@);
        proof {
            assert(listed.drop_last() =~= Seq::<(&str, KwargType)>::empty());
            assert(first_names(listed.drop_last()) =~= Seq::<Seq<char>>::empty());
            assert(names =~= seq!["sudo"@]);
            assert(cmd_kwargs.lookup("sudo"@) == Some(KwargType::Bool));
            assert(names[0] == "sudo"@);
        }
        let types_len = cmd_kwargs.len();
        let kind = match cmd_kwargs.get("sudo") {
            Some(kind) => *kind,
            None => vstd::pervasive::unreached(),
        };
        assert(names.index_of("sudo"@) == 0);
        let kwarg = match get_kwargs(name, &cmd_kwargs) {
            Ok(kwarg) => kwarg,
            Err(ParseKwargError::Invalid(word)) => {
                let mut out: Vec<char> = Vec::new();
                push_str(&mut out, "Invalid kwarg: ");
                push_str(&mut out, word.as_str());
                assert(out@ =~= invalid_spec(word@));
                assert(unknown_post(words, names, word@));
                return string_of(&out);
            },
        };
        proof {
            if exists|word: Seq<char>| unknown_post(words, names, word) {
                let word = choose|word: Seq<char>| unknown_post(words, names, word);
                let i = choose|i: int| #[trigger]
                    crate::util::parser::is_first_unknown(words, names, i) && word == kw_name(
                        words[i],
                    );
                assert(crate::util::parser::has_prefix(words[i]));
                assert(false);
            }
        }
        let sudo = match kwarg.get("sudo") {
            Some(value) => {
                assert(kwarg.values()[0]@ == kwarg_value(words, names[0], cmd_kwargs.values()[0]));
                if kind == KwargType::Bool {
                    match value {
                        crate::util::parser::Kwarg::Bool(b) => *b,
                        _ => vstd::pervasive::unreached(),
                    }
                } else {
                    false
                }
            },
            None => vstd::pervasive::unreached(),
        };
        let result = if sudo {
            layouts.remove_as_admin(kwarg.arg.as_str(), id)
        } else {
            layouts.remove(kwarg.arg.as_str(), id)
        };
        let r = respond(kwarg.arg.as_str(), &result);
        proof {
            let target = join_spec(words.take(next_kw(words, 0)));
            assert(kwarg.arg@ == target);
            assert(sudo == (kwarg_value(words, "sudo"@, KwargType::Bool) == KwargView::Bool(true)));
            assert(remove_post(old(layouts)@, layouts@, target, id, sudo, result) && r@ == answer(
                target,
                result,
            ));
            assert(!(exists|word: Seq<char>| unknown_post(words, seq!["sudo"@], word)));
            assert(remove_spec(arg@, id, old(layouts)@, layouts@, r@));
        }
        r
    }

    /// How the command is called.
    pub fn usage(&self) -> (r: &'static str)
        ensures
            r@ == "remove <layout>"@,
    {
        "remove <layout>"
    }

    /// What the command does.
    pub fn desc(&self) -> (r: &'static str)
        ensures
            r@ == "delete one of your layouts"@,
    {
        "delete one of your layouts"
    }
}

} // verus!
