//! Taking a like back.

use vstd::prelude::*;
use crate::cmds::like::{liked_by, position_of};
use crate::cmds::{no_layout, no_layout_spec};
use crate::util::memory::{first_max, scores_of, Likes, ServerLayouts};
use crate::util::model::LayoutConfig;
use crate::util::names::lemma_insert_lookup;
use crate::util::text::{decimal, decimal_of, push_all, push_str, str_owned, string_of};

verus! {

/// What is said once a like is taken back.
pub open spec fn unliked_spec(name: Seq<char>, count: nat) -> Seq<char> {
    "You unliked "@ + name + ". (Now at "@ + decimal_of(count) + " likes)"@
}

/// Whether `j` is the first index at which the caller stands in the list.
pub open spec fn is_first(users: Seq<u64>, id: u64, j: int) -> bool {
    0 <= j < users.len() && users[j] == id && !users.take(j).contains(id)
}

/// What the command answers and does to the likes: it takes the caller's
/// first like of the layout whose name is most similar to the argument, if
/// there is one.
pub open spec fn unlike_spec(
    arg: Seq<char>,
    id: u64,
    layouts: Seq<LayoutConfig>,
    before: Likes,
    after: Likes,
    r: Seq<char>,
) -> bool {
    match first_max(scores_of(layouts, arg)) {
        None => r == no_layout_spec(arg) && after == before,
        Some(i) => {
            let name = layouts[i].name@;
            let users = liked_by(before, name);
            if !users.contains(id) {
                r == "You've already unliked this layout"@ && after == before
            } else {
                &&& exists|j: int| #[trigger] is_first(users, id, j) && liked_by(after, name) == users.remove(j)
                &&& forall|other: Seq<char>| other != name ==> after.lookup(other) == before.lookup(other)
                &&& r == unliked_spec(name, liked_by(after, name).len())
            }
        },
    }
}

/// The command that takes a like back.
pub struct Command;

impl Command {
    /// Takes back the like of the caller `id`.
    pub fn exec(&self, arg: &str, id: u64, layouts: &ServerLayouts, likes: &mut Likes) -> (r: String)
        ensures
            unlike_spec(arg@, id, layouts@, *old(likes), *final(likes), r@),
    {
        let ll = match layouts.find(arg) {
            Some(ll) => ll,
            None => {
                return no_layout(arg);
            },
        };
        let _ = likes.len();
        let mut liked_layouts: Vec<u64> = match likes.get(ll.name.as_str()) {
            None => {
                return str_owned("You've already unliked this layout");
            },
            Some(liked_layouts) => liked_layouts.clone(),
        };
        let idx = match position_of(&liked_layouts, id) {
            Some(idx) => idx,
            None => {
                return str_owned("You've already unliked this layout");
            },
        };
        let ghost users = liked_layouts@;
        proof {
            assert(users.contains(id));
            assert(is_first(users, id, idx as int));
        }
        liked_layouts.remove(idx);
        let count = liked_layouts.len();
        let ghost before = *likes;
        likes.insert(ll.name.clone(), liked_layouts);
        proof {
            lemma_insert_lookup(before, *likes, ll.name@, liked_layouts);
        }
        let mut out: Vec<char> = Vec::new();
        push_str(&mut out, "You unliked ");
        push_str(&mut out, ll.name.as_str());
        push_str(&mut out, ". (Now at ");
        push_all(&mut out, &decimal(count));
        push_str(&mut out, " likes)");
        assert(out@ =~= unliked_spec(ll.name@, count as nat));
        string_of(&out)
    }

    /// How the command is called.
    pub fn usage(&self) -> (r: &'static str)
        ensures
            r@ == "unlike <layout>"@,
    {
        "unlike <layout>"
    }

    /// What the command does.
    pub fn desc(&self) -> (r: &'static str)
        ensures
            r@ == "unlike a layout"@,
    {
        "unlike a layout"
    }
}

} // verus!
