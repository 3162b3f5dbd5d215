//! Giving a layout to another author.

use vstd::prelude::*;
use crate::cmds::{help_spec, help_text, no_layout, no_layout_spec};
use crate::util::authors::{first_greatest, name_scores, Authors};
use crate::util::memory::{has_name, index_named, with_user, ServerLayouts};
use crate::util::message::{split_word, split_word_spec};
use crate::util::model::LayoutConfig;
use crate::util::text::{decimal_of, parse_number, push_all, push_str, string_of, unsigned_of};

verus! {

/// What is said once a layout is assigned.
pub open spec fn assigned_spec(layout_name: Seq<char>, author: Seq<char>) -> Seq<char> {
    "`"@ + layout_name + "` has been assigned to `"@ + author + "`"@
}

/// What is said where no author has the identity.
pub open spec fn no_id_spec(id: u64) -> Seq<char> {
    "Error: Author with ID `"@ + decimal_of(id as nat) + "` does not exist"@
}

/// What is said where no author is known.
pub open spec fn no_author_spec(author: Seq<char>) -> Seq<char> {
    "Error: Author `"@ + author + "` does not exist"@
}

/// The new owner and the name to show, by what was typed for the author: an
/// identity where it is a number, which must be that of an author, and is
/// shown by the author's first name; else the author whose name is most
/// similar to it, shown as it was typed. Where there is none, what is said.
pub open spec fn chosen(authors: Authors, typed: Seq<char>) -> Result<(u64, Seq<char>), Seq<char>> {
    match unsigned_of(typed) {
        Some(id) => if authors.names().contains_key(id) {
            Ok((id, authors.names()[id]@[0]@))
        } else {
            Err(no_id_spec(id))
        },
        None => if authors.known().len() == 0 {
            Err(no_author_spec(typed))
        } else {
            Ok((authors.owners()[first_greatest(name_scores(authors.known(), typed))], typed))
        },
    }
}

/// What the command does: the first word of the argument is the layout, the
/// rest the author. The layout of exactly that name gets the author as its
/// owner; nothing changes where anything is missing.
pub open spec fn assign_spec(
    arg: Seq<char>,
    authors: Authors,
    before: Seq<LayoutConfig>,
    after: Seq<LayoutConfig>,
    r: Seq<char>,
) -> bool {
    let (layout_name, typed) = split_word_spec(arg);
    if layout_name.len() == 0 || typed.len() == 0 {
        r == help_spec("assign <layout> <author>"@, "assign a layout to a new author"@) && after
            == before
    } else if !has_name(before, layout_name) {
        r == no_layout_spec(layout_name) && after == before
    } else {
        match chosen(authors, typed) {
            Err(message) => r == message && after == before,
            Ok((id, shown)) => {
                let i = index_named(before, layout_name);
                r == assigned_spec(layout_name, shown) && after == before.update(
                    i,
                    with_user(before[i], id),
                )
            },
        }
    }
}

/// The command that gives a layout to another author.
pub struct Command;

impl Command {
    /// Gives a layout to another author.
    pub fn exec(&self, arg: &str, layouts: &mut ServerLayouts, authors: &Authors) -> (r: String)
        ensures
            assign_spec(arg@, *authors, old(layouts)@, final(layouts)@, r@),
    {
        let (layout_name, typed) = split_word(arg);
        if layout_name.as_str().is_empty() || typed.as_str().is_empty() {
            return help_text(self.usage(), self.desc());
        }
        if !layouts.contains(layout_name.as_str()) {
            return no_layout(layout_name.as_str());
        }
        let mut out: Vec<char> = Vec::new();
        let _ = authors.name_count();
        let (author_id, shown) = match parse_number(typed.as_str()) {
            Some(author_id) => {
                match authors.get_name(author_id) {
                    None => {
                        push_str(&mut out, "Error: Author with ID `");
                        push_all(&mut out, &crate::util::text::decimal_u64(author_id));
                        push_str(&mut out, "` does not exist");
                        assert(out@ =~= no_id_spec(author_id));
                        return string_of(&out);
                    },
                    Some(name) => (author_id, crate::util::text::str_owned(name)),
                }
            },
            None => match authors.get_id(typed.as_str()) {
                Some(author_id) => (author_id, typed),
                None => {
                    push_str(&mut out, "Error: Author `");
                    push_str(&mut out, typed.as_str());
                    push_str(&mut out, "` does not exist");
                    assert(out@ =~= no_author_spec(typed@));
                    return string_of(&out);
                },
            },
        };
        layouts.assign(layout_name.as_str(), author_id);
        push_str(&mut out, "`");
        push_str(&mut out, layout_name.as_str());
        push_str(&mut out, "` has been assigned to `");
        push_str(&mut out, shown.as_str());
        push_str(&mut out, "`");
        assert(out@ =~= assigned_spec(layout_name@, shown@));
        string_of(&out)
    }

    /// How the command is called.
    pub fn usage(&self) -> (r: &'static str)
        ensures
            r@ == "assign <layout> <author>"@,
    {
        "assign <layout> <author>"
    }

    /// What the command does.
    pub fn desc(&self) -> (r: &'static str)
        ensures
            r@ == "assign a layout to a new author"@,
    {
        "assign a layout to a new author"
    }

    /// Whether only admins may call the command.
    pub fn mods_only(&self) -> (r: bool)
        ensures
            r,
    {
        true
    }
}

} // verus!
