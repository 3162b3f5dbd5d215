//! Liking a layout.

use vstd::prelude::*;
use crate::cmds::{help_spec, help_text, no_layout, no_layout_spec};
use crate::util::memory::{first_max, scores_of, Likes, ServerLayouts};
use crate::util::model::LayoutConfig;
use crate::util::names::lemma_insert_lookup;
use crate::util::text::{decimal, decimal_of, push_all, push_str, str_eq, str_owned, string_of};

verus! {

/// The first index at which a caller stands in a list, if any.
pub fn position_of(users: &Vec<u64>, id: u64) -> (r: Option<usize>)
    ensures
        match r {
            Some(i) => i < users@.len() && users@[i as int] == id && !users@.take(i as int).contains(
                id,
            ),
            None => !users@.contains(id),
        },
{
    let mut i: usize = 0;
    while i < users.len()
        invariant
            i <= users.len(),
            forall|j: int| 0 <= j < i ==> users@[j] != id,
        decreases users.len() - i,
    {
        if users[i] == id {
            return Some(i);
        }
        i += 1;
    }
    None
}

/// The callers who like a layout.
pub open spec fn liked_by(likes: Likes, name: Seq<char>) -> Seq<u64> {
    match likes.lookup(name) {
        Some(users) => users@,
        None => Seq::empty(),
    }
}

/// What is said once a layout is liked.
pub open spec fn liked_spec(name: Seq<char>, count: nat) -> Seq<char> {
    "You liked "@ + name + ". (Now at "@ + decimal_of(count) + " like"@ + (if count == 1 {
        ""@
    } else {
        "s"@
    }) + ")"@
}

/// What the command answers and does to the likes: it likes the layout whose
/// name is most similar to the argument, unless that is qwerty or the caller
/// likes it already.
pub open spec fn like_spec(
    arg: Seq<char>,
    id: u64,
    layouts: Seq<LayoutConfig>,
    before: Likes,
    after: Likes,
    r: Seq<char>,
) -> bool {
    if arg.len() == 0 {
        r == help_spec("like <layout>"@, "like a layout"@) && after == before
    } else {
        match first_max(scores_of(layouts, arg)) {
            None => r == no_layout_spec(arg) && after == before,
            Some(i) => {
                let name = layouts[i].name@;
                if name == "qwerty"@ {
                    r == "You can't like Qwerty :yellow_circle:"@ && after == before
                } else if liked_by(before, name).contains(id) {
                    r == "You've already liked this layout"@ && after == before
                } else {
                    &&& liked_by(after, name) == liked_by(before, name).push(id)
                    &&& forall|other: Seq<char>|
                        other != name ==> after.lookup(other) == before.lookup(other)
                    &&& r == liked_spec(name, liked_by(after, name).len())
                }
            },
        }
    }
}

/// The command that likes a layout.
pub struct Command;

impl Command {
    /// Likes a layout for the caller `id`.
    pub fn exec(&self, arg: &str, id: u64, layouts: &ServerLayouts, likes: &mut Likes) -> (r: String)
        ensures
            like_spec(arg@, id, layouts@, *old(likes), *final(likes), r@),
    {
        let name = arg;
        if name.is_empty() {
            return help_text(self.usage(), self.desc());
        }
        let ll = match layouts.find(name) {
            Some(ll) => ll,
            None => {
                return no_layout(name);
            },
        };
        if str_eq(ll.name.as_str(), "qwerty") {
            return str_owned("You can't like Qwerty :yellow_circle:");
        }
        let _ = likes.len();
        let mut liked_users: Vec<u64> = match likes.get(ll.name.as_str()) {
            None => Vec::new(),
            Some(liked_users) => liked_users.clone(),
        };
        if position_of(&liked_users, id).is_some() {
            return str_owned("You've already liked this layout");
        }
        liked_users.push(id);
        let like_count = liked_users.len();
        let ghost before = *likes;
        likes.insert(ll.name.clone(), liked_users);
        proof {
            lemma_insert_lookup(before, *likes, ll.name@, liked_users);
        }
        let mut out: Vec<char> = Vec::new();
        push_str(&mut out, "You liked ");
        push_str(&mut out, ll.name.as_str());
        push_str(&mut out, ". (Now at ");
        push_all(&mut out, &decimal(like_count));
        push_str(&mut out, " like");
        if like_count != 1 {
            push_str(&mut out, "s");
        }
        push_str(&mut out, ")");
        proof {
            reveal_strlit("");
            assert(out@ =~= liked_spec(ll.name@, like_count as nat));
        }
        string_of(&out)
    }

    /// How the command is called.
    pub fn usage(&self) -> (r: &'static str)
        ensures
            r@ == "like <layout>"@,
    {
        "like <layout>"
    }

    /// What the command does.
    pub fn desc(&self) -> (r: &'static str)
        ensures
            r@ == "like a layout"@,
    {
        "like a layout"
    }
}

} // verus!
