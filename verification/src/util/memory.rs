//! The registry of layouts: every known layout under its name, in the order
//! in which the names were added.

use vstd::prelude::*;
use vstd::string::StringExecFns;
use crate::util::keys::Layout;
use crate::util::model::LayoutConfig;
use crate::util::names::NameMap;

verus! {

/// Why a layout was not removed.
#[derive(Debug)]
pub enum RemoveError<'a> {
    /// No layout has this name.
    NotFound(&'a str),
    /// The layout of this name belongs to someone else.
    NotOwner(&'a str),
}

/// Why a layout was not renamed.
#[derive(Debug)]
pub enum RenameError<'a> {
    /// No layout has the old name.
    NotFound(&'a str),
    /// The layout of the old name belongs to someone else.
    NotOwner(&'a str),
    /// A layout has the new name already.
    Exists(&'a str),
}

impl<'a> RemoveError<'a> {
    /// The message of the error.
    pub open spec fn message(self) -> Seq<char> {
        match self {
            RemoveError::NotFound(name) => "Error: `"@ + name@ + "` does not exist"@,
            RemoveError::NotOwner(name) => not_owner_message(name@),
        }
    }

    /// The message of the error.
    pub fn to_string(&self) -> (r: String)
        ensures
            r@ == self.message(),
    {
        match self {
            RemoveError::NotFound(name) => {
                let mut s = String::from_str("Error: `");
                s.append(name);
                s.append("` does not exist");
                s
            },
            RemoveError::NotOwner(name) => not_owner(name),
        }
    }
}

/// What is said to a caller who does not own the layout: that it is not
/// theirs, and how an admin removes it all the same.
pub open spec fn not_owner_message(name: Seq<char>) -> Seq<char> {
    "Error: you don't own `"@ + name + "`\nHelp: you may remove it with `remove "@ + name
        + " --sudo`"@
}

/// What is said to a caller who does not own the layout.
pub fn not_owner(name: &str) -> (r: String)
    ensures
        r@ == not_owner_message(name@),
{
    let mut s = String::from_str("Error: you don't own `");
    s.append(name);
    s.append("`\nHelp: you may remove it with `remove ");
    s.append(name);
    s.append(" --sudo`");
    s
}

impl<'a> RenameError<'a> {
    /// The message of the error.
    pub open spec fn message(self) -> Seq<char> {
        match self {
            RenameError::NotFound(name) => "Error: `"@ + name@ + "` does not exist"@,
            RenameError::NotOwner(name) => not_owner_message(name@),
            RenameError::Exists(name) => "Error: `"@ + name@ + "` already exists"@,
        }
    }

    /// The message of the error.
    pub fn to_string(&self) -> (r: String)
        ensures
            r@ == self.message(),
    {
        match self {
            RenameError::NotFound(name) => {
                let mut s = String::from_str("Error: `");
                s.append(name);
                s.append("` does not exist");
                s
            },
            RenameError::NotOwner(name) => not_owner(name),
            RenameError::Exists(name) => {
                let mut s = String::from_str("Error: `");
                s.append(name);
                s.append("` already exists");
                s
            },
        }
    }
}

/// Whether a layout of the sequence has the name.
pub open spec fn has_name(s: Seq<LayoutConfig>, name: Seq<char>) -> bool {
    exists|i: int| 0 <= i < s.len() && (#[trigger] s[i]).name@ == name
}

/// The index of a layout of that name.
pub open spec fn index_named(s: Seq<LayoutConfig>, name: Seq<char>) -> int {
    choose|i: int| 0 <= i < s.len() && (#[trigger] s[i]).name@ == name
}

/// Whether no two layouts of the sequence have the same name.
pub open spec fn distinct_names(s: Seq<LayoutConfig>) -> bool {
    forall|i: int, j: int| 0 <= i < j < s.len() ==> (#[trigger] s[i]).name@ != (#[trigger] s[j]).name@
}

/// The layout with another owner.
pub open spec fn with_user(ll: LayoutConfig, user: u64) -> LayoutConfig {
    LayoutConfig { name: ll.name, user, board: ll.board, keys: ll.keys, sum: ll.sum }
}

/// The layout under another name.
pub open spec fn renamed(ll: LayoutConfig, after: LayoutConfig, name: Seq<char>) -> bool {
    &&& after.name@ == name
    &&& after.user == ll.user
    &&& after.board == ll.board
    &&& after.keys == ll.keys
    &&& after.sum == ll.sum
}

/// The Jaro-Winkler similarity of two texts as `strsim::jaro_winkler`
/// computes it, in the bit pattern of the number. The similarity is never
/// negative, so a greater pattern is a greater similarity, and the pattern
/// is zero exactly where the similarity is.
pub uninterp spec fn jaro_winkler_bits(a: Seq<char>, b: Seq<char>) -> u64;

/// `strsim::jaro_winkler` on two texts, the result taken by its bits.
#[verifier::external_body]
pub(crate) fn similarity(a: &str, b: &str) -> (r: u64)
    ensures
        r == jaro_winkler_bits(a@, b@),
{
    strsim::jaro_winkler(a, b).to_bits()
}

/// The similarity of each layout's name to a query.
pub open spec fn scores_of(s: Seq<LayoutConfig>, query: Seq<char>) -> Seq<u64> {
    Seq::new(s.len(), |i: int| jaro_winkler_bits(s[i].name@, query))
}

/// The index of the greatest score above zero, the first one where several
/// are as great; `None` where every score is zero.
pub open spec fn first_max(scores: Seq<u64>) -> Option<int>
    decreases scores.len(),
{
    if scores.len() == 0 {
        None
    } else {
        match first_max(scores.drop_last()) {
            None => if scores.last() > 0 {
                Some(scores.len() - 1)
            } else {
                None
            },
            Some(best) => if scores.last() > scores[best] {
                Some(scores.len() - 1)
            } else {
                Some(best)
            },
        }
    }
}

/// The name that is most similar to the query, or the empty text where no
/// name has any similarity.
pub open spec fn best_match_spec(s: Seq<LayoutConfig>, query: Seq<char>) -> Seq<char> {
    match first_max(scores_of(s, query)) {
        Some(i) => s[i].name@,
        None => Seq::<char>::empty(),
    }
}

/// The choice among scores is the first index at which the greatest score
/// stands, provided that score is above zero.
pub proof fn lemma_first_max(scores: Seq<u64>)
    ensures
        match first_max(scores) {
            Some(best) => {
                &&& 0 <= best < scores.len()
                &&& scores[best] > 0
                &&& forall|j: int| 0 <= j < scores.len() ==> scores[j] <= scores[best]
                &&& forall|j: int| 0 <= j < best ==> scores[j] < scores[best]
            },
            None => forall|j: int| 0 <= j < scores.len() ==> scores[j] == 0,
        },
    decreases scores.len(),
{
    if scores.len() > 0 {
        let head = scores.drop_last();
        lemma_first_max(head);
        assert forall|j: int| 0 <= j < head.len() implies head[j] == scores[j] by {}
        match first_max(head) {
            None => {
                assert forall|j: int| 0 <= j < scores.len() - 1 implies scores[j] == 0 by {
                    assert(head[j] == 0);
                }
            },
            Some(best) => {
                assert(head[best] == scores[best]);
                assert forall|j: int| 0 <= j < scores.len() - 1 implies scores[j] <= scores[best] by {
                    assert(head[j] <= head[best]);
                }
                assert forall|j: int| 0 <= j < best implies scores[j] < scores[best] by {
                    assert(head[j] < head[best]);
                }
            },
        }
    }
}

/// The index of the greatest score above zero, the first one where several
/// are as great.
pub fn best_of(scores: &Vec<u64>) -> (r: Option<usize>)
    ensures
        match r {
            Some(i) => first_max(scores@) == Some(i as int) && i < scores@.len(),
            None => first_max(scores@) is None,
        },
{
    let mut best: Option<usize> = None;
    let mut max_score: u64 = 0;
    let mut i: usize = 0;
    assert(scores@.take(0) =~= Seq::<u64>::empty());
    while i < scores.len()
        invariant
            i <= scores.len(),
            match best {
                Some(b) => first_max(scores@.take(i as int)) == Some(b as int) && b < i && max_score
                    == scores@[b as int],
                None => first_max(scores@.take(i as int)) is None && max_score == 0,
            },
        decreases scores.len() - i,
    {
        proof {
            assert(scores@.take(i + 1).drop_last() =~= scores@.take(i as int));
            assert(scores@.take(i + 1).last() == scores@[i as int]);
            if let Some(b) = best {
                assert(scores@.take(i + 1)[b as int] == scores@[b as int]);
            }
        }
        let score = scores[i];
        if score > max_score {
            max_score = score;
            best = Some(i);
        }
        i += 1;
    }
    assert(scores@.take(scores@.len() as int) =~= scores@);
    best
}

/// All known layouts, each under its own name, in the order in which they
/// were added.
pub struct ServerLayouts {
    map: NameMap<LayoutConfig>,
}

impl View for ServerLayouts {
    type V = Seq<LayoutConfig>;

    closed spec fn view(&self) -> Seq<LayoutConfig> {
        self.map.values()
    }
}

impl ServerLayouts {
    #[verifier::type_invariant]
    spec fn inv(self) -> bool {
        &&& self.map.wf()
        &&& forall|i: int|
            0 <= i < self.map.values().len() ==> (#[trigger] self.map.values()[i]).name@
                == self.map.names()[i]
    }

    proof fn lemma_inv(self)
        requires
            self.inv(),
        ensures
            distinct_names(self@),
            forall|name: Seq<char>| has_name(self@, name) <==> self.map.names().contains(name),
            forall|name: Seq<char>|
                has_name(self@, name) ==> index_named(self@, name) == self.map.names().index_of(name),
    {
        let names = self.map.names();
        let vals = self.map.values();
        assert forall|i: int, j: int| 0 <= i < j < vals.len() implies (#[trigger] vals[i]).name@ != (
        #[trigger] vals[j]).name@ by {
            assert(names[i] != names[j]);
        }
        assert forall|name: Seq<char>| has_name(self@, name) <==> names.contains(name) by {
            if has_name(self@, name) {
                let i = index_named(self@, name);
                assert(names[i] == name);
            }
            if names.contains(name) {
                let i = names.index_of(name);
                assert(names[i] == name);
                assert(vals[i].name@ == name);
            }
        }
        assert forall|name: Seq<char>| has_name(self@, name) implies index_named(self@, name)
            == names.index_of(name) by {
            let i = index_named(self@, name);
            let j = names.index_of(name);
            assert(names[i] == name);
            assert(names.contains(name));
            assert(names[j] == name);
        }
    }

    /// The registry with no layouts.
    pub fn new() -> (r: Self)
        ensures
            r@ == Seq::<LayoutConfig>::empty(),
    {
        ServerLayouts { map: NameMap::new() }
    }

    /// How many layouts there are.
    pub fn len(&self) -> (r: usize)
        ensures
            r == self@.len(),
            distinct_names(self@),
    {
        proof {
            use_type_invariant(self);
            self.lemma_inv();
        }
        self.map.len()
    }

    /// The layout at an index of the order, or `None` past the end.
    pub fn get_index(&self, index: usize) -> (r: Option<&LayoutConfig>)
        ensures
            distinct_names(self@),
            match r {
                Some(ll) => index < self@.len() && *ll == self@[index as int],
                None => index >= self@.len(),
            },
    {
        proof {
            use_type_invariant(self);
            self.lemma_inv();
        }
        match self.map.get_index(index) {
            Some((_, ll)) => Some(ll),
            None => None,
        }
    }

    /// Adds a layout under its name. Where the name is taken nothing
    /// changes and `false` comes back.
    pub fn add(&mut self, ll: LayoutConfig) -> (r: bool)
        ensures
            r == !has_name(old(self)@, ll.name@),
            r ==> final(self)@ == old(self)@.push(ll),
            !r ==> final(self)@ == old(self)@,
            distinct_names(final(self)@),
    {
        proof {
            use_type_invariant(&*self);
            self.lemma_inv();
        }
        if self.map.contains_key(ll.name.as_str()) {
            return false;
        }
        let mut taken = ServerLayouts { map: NameMap::new() };
        std::mem::swap(self, &mut taken);
        let ServerLayouts { mut map } = taken;
        let name = ll.name.clone();
        map.insert(name, ll);
        *self = ServerLayouts { map };
        proof {
            use_type_invariant(&*self);
            self.lemma_inv();
        }
        true
    }

    /// The layout of exactly this name.
    pub fn get(&self, name: &str) -> (r: Option<&LayoutConfig>)
        ensures
            distinct_names(self@),
            match r {
                Some(ll) => has_name(self@, name@) && *ll == self@[index_named(self@, name@)]
                    && ll.name@ == name@,
                None => !has_name(self@, name@),
            },
    {
        proof {
            use_type_invariant(self);
            self.lemma_inv();
        }
        self.map.get(name)
    }

    /// Whether a layout has exactly this name.
    pub fn contains(&self, name: &str) -> (r: bool)
        ensures
            r == has_name(self@, name@),
    {
        proof {
            use_type_invariant(self);
            self.lemma_inv();
        }
        self.map.contains_key(name)
    }

    /// Removes the layout of this name if `id` owns it.
    pub fn remove<'a>(&mut self, name: &'a str, id: u64) -> (r: Result<LayoutConfig, RemoveError<'a>>)
        ensures
            remove_post(old(self)@, final(self)@, name@, id, false, r),
    {
        self.remove_impl(name, id, false)
    }

    /// Removes the layout of this name, whoever owns it.
    pub fn remove_as_admin<'a>(&mut self, name: &'a str, id: u64) -> (r: Result<
        LayoutConfig,
        RemoveError<'a>,
    >)
        ensures
            remove_post(old(self)@, final(self)@, name@, id, true, r),
    {
        self.remove_impl(name, id, true)
    }

    fn remove_impl<'a>(&mut self, name: &'a str, id: u64, admin: bool) -> (r: Result<
        LayoutConfig,
        RemoveError<'a>,
    >)
        ensures
            remove_post(old(self)@, final(self)@, name@, id, admin, r),
    {
        proof {
            use_type_invariant(&*self);
            self.lemma_inv();
        }
        let user = match self.map.get(name) {
            None => {
                return Err(RemoveError::NotFound(name));
            },
            Some(ll) => ll.user,
        };
        if user == id || admin {
            let mut taken = ServerLayouts { map: NameMap::new() };
            std::mem::swap(self, &mut taken);
            let ServerLayouts { mut map } = taken;
            let removed = map.shift_remove(name);
            *self = ServerLayouts { map };
            match removed {
                Some(ll) => Ok(ll),
                None => vstd::pervasive::unreached(),
            }
        } else {
            Err(RemoveError::NotOwner(name))
        }
    }

    /// Gives the layout of this name another owner. `false`, and no change,
    /// where there is no such layout.
    pub fn assign(&mut self, name: &str, user: u64) -> (r: bool)
        ensures
            r == has_name(old(self)@, name@),
            r ==> final(self)@ == old(self)@.update(
                index_named(old(self)@, name@),
                with_user(old(self)@[index_named(old(self)@, name@)], user),
            ),
            !r ==> final(self)@ == old(self)@,
            distinct_names(final(self)@),
    {
        proof {
            use_type_invariant(&*self);
            self.lemma_inv();
        }
        let index = match self.map.index_of(name) {
            Some(index) => index,
            None => {
                return false;
            },
        };
        let mut taken = ServerLayouts { map: NameMap::new() };
        std::mem::swap(self, &mut taken);
        let ServerLayouts { mut map } = taken;
        let blank = LayoutConfig {
            name: String::new(),
            user: 0,
            board: String::new(),
            keys: Layout::new(),
            sum: 0,
        };
        let held = map.replace_index(index, blank);
        let LayoutConfig { name: held_name, user: _, board, keys, sum } = held;
        let changed = LayoutConfig { name: held_name, user, board, keys, sum };
        let _ = map.replace_index(index, changed);
        assert(map.values() =~= old(self)@.update(index as int, changed));
        *self = ServerLayouts { map };
        proof {
            use_type_invariant(&*self);
            self.lemma_inv();
        }
        true
    }

    /// Gives the layout of the old name the new name, if `id` owns it and
    /// the new name is free, and moves it to the end of the order. Nothing
    /// changes where it fails.
    pub fn rename<'a>(&mut self, old_name: &'a str, new_name: &'a str, id: u64) -> (r: Result<
        (),
        RenameError<'a>,
    >)
        ensures
            rename_post(old(self)@, final(self)@, old_name@, new_name@, id, r),
    {
        proof {
            use_type_invariant(&*self);
            self.lemma_inv();
        }
        let user = match self.map.get(old_name) {
            None => {
                return Err(RenameError::NotFound(old_name));
            },
            Some(ll) => ll.user,
        };
        if user != id {
            return Err(RenameError::NotOwner(old_name));
        }
        if self.map.contains_key(new_name) {
            return Err(RenameError::Exists(new_name));
        }
        let mut taken = ServerLayouts { map: NameMap::new() };
        std::mem::swap(self, &mut taken);
        let ServerLayouts { mut map } = taken;
        let held = match map.shift_remove(old_name) {
            Some(ll) => ll,
            None => vstd::pervasive::unreached(),
        };
        let LayoutConfig { name: _, user, board, keys, sum } = held;
        let changed = LayoutConfig { name: new_name.to_owned(), user, board, keys, sum };
        proof {
            let i = index_named(old(self)@, old_name@);
            let rest = old(self).map.names().remove(i);
            assert(!rest.contains(new_name@)) by {
                if rest.contains(new_name@) {
                    let j = rest.index_of(new_name@);
                    assert(rest[j] == new_name@);
                    let k = if j < i { j } else { j + 1 };
                    assert(old(self).map.names()[k] == new_name@);
                }
            }
            assert forall|j: int| 0 <= j < rest.len() implies (#[trigger] old(self)@.remove(
                i,
            )[j]).name@ == rest[j] by {
                let k = if j < i { j } else { j + 1 };
                assert(old(self)@.remove(i)[j] == old(self)@[k]);
            }
        }
        map.insert(new_name.to_owned(), changed);
        *self = ServerLayouts { map };
        proof {
            use_type_invariant(&*self);
            self.lemma_inv();
            let i = index_named(old(self)@, old_name@);
            assert(self@.drop_last() =~= old(self)@.remove(i));
        }
        Ok(())
    }

    /// The name that is most similar to `base_name`: the first of the order
    /// among those of the greatest similarity; the empty text where no name
    /// has any.
    pub fn best_match(&self, base_name: &str) -> (r: String)
        ensures
            r@ == best_match_spec(self@, base_name@),
    {
        match self.best_index(base_name) {
            Some(i) => match self.get_index(i) {
                Some(ll) => ll.name.clone(),
                None => vstd::pervasive::unreached(),
            },
            None => String::new(),
        }
    }

    /// The index of the layout whose name is most similar to `base_name`.
    pub fn best_index(&self, base_name: &str) -> (r: Option<usize>)
        ensures
            match r {
                Some(i) => first_max(scores_of(self@, base_name@)) == Some(i as int) && i
                    < self@.len(),
                None => first_max(scores_of(self@, base_name@)) is None,
            },
    {
        let n = self.len();
        let mut scores: Vec<u64> = Vec::new();
        let mut i: usize = 0;
        while i < n
            invariant
                i <= n,
                n == self@.len(),
                scores@.len() == i,
                forall|j: int|
                    0 <= j < i ==> #[trigger] scores@[j] == jaro_winkler_bits(
                        self@[j].name@,
                        base_name@,
                    ),
            decreases n - i,
        {
            match self.get_index(i) {
                Some(ll) => {
                    scores.push(similarity(ll.name.as_str(), base_name));
                },
                None => {
                    assert(false);
                },
            }
            i += 1;
        }
        assert(scores@ =~= scores_of(self@, base_name@));
        best_of(&scores)
    }

    /// The layout whose name is most similar to the query, or `None` where
    /// no name has any similarity to it.
    pub fn find(&self, name: &str) -> (r: Option<&LayoutConfig>)
        ensures
            match r {
                Some(ll) => {
                    &&& first_max(scores_of(self@, name@)) is Some
                    &&& *ll == self@[first_max(scores_of(self@, name@)).unwrap()]
                    &&& ll.name@ == best_match_spec(self@, name@)
                },
                None => first_max(scores_of(self@, name@)) is None,
            },
    {
        match self.best_index(name) {
            Some(i) => self.get_index(i),
            None => None,
        }
    }
}

/// What renaming does: it fails, and changes nothing, where no layout has
/// the old name, where the caller does not own that layout, or where a
/// layout has the new name; else that layout leaves its place and goes to
/// the end under the new name, with its owner, board, keys and checksum.
pub open spec fn rename_post(
    before: Seq<LayoutConfig>,
    after: Seq<LayoutConfig>,
    old_name: Seq<char>,
    new_name: Seq<char>,
    id: u64,
    r: Result<(), RenameError<'_>>,
) -> bool {
    let i = index_named(before, old_name);
    &&& distinct_names(after)
    &&& match r {
        Ok(_) => {
            &&& has_name(before, old_name)
            &&& before[i].user == id
            &&& !has_name(before, new_name)
            &&& after.len() == before.len()
            &&& after.drop_last() == before.remove(i)
            &&& renamed(before[i], after.last(), new_name)
        },
        Err(RenameError::NotFound(n)) => !has_name(before, old_name) && n@ == old_name && after
            == before,
        Err(RenameError::NotOwner(n)) => {
            &&& has_name(before, old_name)
            &&& before[i].user != id
            &&& n@ == old_name
            &&& after == before
        },
        Err(RenameError::Exists(n)) => {
            &&& has_name(before, old_name)
            &&& before[i].user == id
            &&& has_name(before, new_name)
            &&& n@ == new_name
            &&& after == before
        },
    }
}

/// What removing does: it fails, and changes nothing, where no layout has
/// the name, or where the caller neither owns the layout nor is an admin;
/// else the layout leaves the registry and comes back, and the others keep
/// their order.
pub open spec fn remove_post(
    before: Seq<LayoutConfig>,
    after: Seq<LayoutConfig>,
    name: Seq<char>,
    id: u64,
    admin: bool,
    r: Result<LayoutConfig, RemoveError<'_>>,
) -> bool {
    let i = index_named(before, name);
    &&& distinct_names(after)
    &&& match r {
        Ok(ll) => {
            &&& has_name(before, name)
            &&& (before[i].user == id || admin)
            &&& ll == before[i]
            &&& after == before.remove(i)
        },
        Err(RemoveError::NotFound(n)) => !has_name(before, name) && n@ == name && after == before,
        Err(RemoveError::NotOwner(n)) => {
            &&& has_name(before, name)
            &&& before[i].user != id
            &&& !admin
            &&& n@ == name
            &&& after == before
        },
    }
}

/// The callers who like each layout, under the layout's name.
pub type Likes = NameMap<Vec<u64>>;

/// How many callers like a layout.
pub open spec fn like_count(likes: Option<Vec<u64>>) -> nat {
    match likes {
        Some(liked_users) => liked_users@.len(),
        None => 0,
    }
}

/// How many callers like a layout.
pub fn get_like_count(likes: &Likes, name: &str) -> (r: usize)
    ensures
        r == like_count(likes.lookup(name@)),
{
    match likes.get(name) {
        Some(liked_users) => liked_users.len(),
        None => 0,
    }
}

} // verus!
