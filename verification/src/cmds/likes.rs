//! Listing the layouts that a caller likes.

use vstd::prelude::*;
use crate::cmds::like::position_of;
use crate::util::memory::Likes;
use crate::util::text::{chars_of, is_ascending, push_all, push_str, sort_texts, string_of, views};

verus! {

/// The names of the layouts that a caller likes, in the order of the likes.
pub open spec fn liked_names(names: Seq<Seq<char>>, users: Seq<Vec<u64>>, id: u64) -> Seq<Seq<char>>
    decreases names.len(),
{
    if names.len() == 0 || users.len() != names.len() {
        Seq::empty()
    } else if users.last()@.contains(id) {
        liked_names(names.drop_last(), users.drop_last(), id).push(names.last())
    } else {
        liked_names(names.drop_last(), users.drop_last(), id)
    }
}

/// The names, one a line.
pub open spec fn lines_spec(names: Seq<Seq<char>>) -> Seq<char>
    decreases names.len(),
{
    if names.len() == 0 {
        Seq::empty()
    } else {
        lines_spec(names.drop_last()) + names.last() + "\n"@
    }
}

/// The list as it is shown.
pub open spec fn list_spec(author: Seq<char>, names: Seq<Seq<char>>) -> Seq<char> {
    "```\n"@ + author + "'s liked layouts:\n"@ + lines_spec(names) + "```"@
}

/// What the command answers: under the caller's name, the names of the
/// layouts that the caller likes, in ascending order.
pub open spec fn likes_spec(id: u64, author: Seq<char>, likes: Likes, r: Seq<char>) -> bool {
    exists|sorted: Seq<Seq<char>>|
        {
            &&& is_ascending(sorted)
            &&& sorted.to_multiset() == liked_names(likes.names(), likes.values(), id).to_multiset()
            &&& #[trigger] list_spec(author, sorted) == r
        }
}

/// The command that lists the layouts that a caller likes.
pub struct Command;

impl Command {
    /// The layouts that the caller `id` likes, in ascending order of their
    /// names, under the caller's name.
    pub fn exec(&self, id: u64, name: &str, likes: &Likes) -> (r: String)
        ensures
            likes_spec(id, name@, *likes, r@),
    {
        let n = likes.len();
        let mut liked_layouts: Vec<Vec<char>> = Vec::new();
        let mut i: usize = 0;
        assert(likes.names().take(0) =~= Seq::<Seq<char>>::empty());
        while i < n
            invariant
                i <= n,
                likes.wf(),
                n == likes.names().len(),
                views(liked_layouts@) == liked_names(
                    likes.names().take(i as int),
                    likes.values().take(i as int),
                    id,
                ),
            decreases n - i,
        {
            let ghost before = views(liked_layouts@);
            match likes.get_index(i) {
                Some((layout, liked_users)) => {
                    proof {
                        assert(likes.names().take(i + 1).drop_last() =~= likes.names().take(i as int));
                        assert(likes.values().take(i + 1).drop_last() =~= likes.values().take(
                            i as int,
                        ));
                    }
                    if position_of(liked_users, id).is_some() {
                        liked_layouts.push(chars_of(layout.as_str()));
                        assert(views(liked_layouts@) =~= before.push(layout@));
                    }
                },
                None => {
                    assert(false);
                },
            }
            i += 1;
        }
        proof {
            assert(likes.names().take(n as int) =~= likes.names());
            assert(likes.values().take(n as int) =~= likes.values());
        }
        let sorted = sort_texts(&liked_layouts);

        let mut out: Vec<char> = Vec::new();
        push_str(&mut out, "```\n");
        push_str(&mut out, name);
        push_str(&mut out, "'s liked layouts:\n");
        let ghost head = out@;
        let mut k: usize = 0;
        assert(views(sorted@).take(0) =~= Seq::<Seq<char>>::empty());
        assert(out@ =~= head + lines_spec(views(sorted@).take(0)));
        while k < sorted.len()
            invariant
                k <= sorted.len(),
                out@ == head + lines_spec(views(sorted@).take(k as int)),
            decreases sorted.len() - k,
        {
            push_all(&mut out, &sorted[k]);
            push_str(&mut out, "\n");
            proof {
                let all = views(sorted@);
                assert(all.take(k + 1).drop_last() =~= all.take(k as int));
                assert(all.take(k + 1).last() == sorted@[k as int]@);
                assert(out@ =~= head + lines_spec(all.take(k + 1)));
            }
            k += 1;
        }
        assert(views(sorted@).take(sorted@.len() as int) =~= views(sorted@));
        push_str(&mut out, "```");
        assert(out@ =~= list_spec(name@, views(sorted@)));
        string_of(&out)
    }

    /// How the command is called.
    pub fn usage(&self) -> (r: &'static str)
        ensures
            r@ == "likes"@,
    {
        "likes"
    }

    /// What the command does.
    pub fn desc(&self) -> (r: &'static str)
        ensures
            r@ == "see a list of your liked layouts"@,
    {
        "see a list of your liked layouts"
    }
}

} // verus!
