//! The authors: the names that each identity goes by, and the identity that
//! each name belongs to.

use std::collections::HashMap;
use vstd::prelude::*;
use crate::util::memory::jaro_winkler_bits;
use crate::util::names::{lemma_insert_lookup, NameMap};

verus! {

/// The index of the greatest score, the first one where several are as
/// great; zero where there are no scores.
pub open spec fn first_greatest(scores: Seq<u64>) -> int
    decreases scores.len(),
{
    if scores.len() <= 1 {
        0
    } else {
        let best = first_greatest(scores.drop_last());
        if scores.last() > scores[best] {
            scores.len() - 1
        } else {
            best
        }
    }
}

/// The index of the greatest score, the first one where several are as
/// great.
pub fn greatest_of(scores: &Vec<u64>) -> (r: usize)
    requires
        scores@.len() > 0,
    ensures
        r == first_greatest(scores@),
        r < scores@.len(),
{
    let mut best: usize = 0;
    let mut i: usize = 1;
    assert(scores@.take(1).len() == 1);
    while i < scores.len()
        invariant
            1 <= i <= scores.len(),
            best < i,
            best == first_greatest(scores@.take(i as int)),
        decreases scores.len() - i,
    {
        proof {
            assert(scores@.take(i + 1).drop_last() =~= scores@.take(i as int));
            assert(scores@.take(i + 1).last() == scores@[i as int]);
            assert(scores@.take(i + 1)[best as int] == scores@[best as int]);
        }
        if scores[i] > scores[best] {
            best = i;
        }
        i += 1;
    }
    assert(scores@.take(scores@.len() as int) =~= scores@);
    best
}

/// The similarity of each name to a query.
pub open spec fn name_scores(names: Seq<Seq<char>>, query: Seq<char>) -> Seq<u64> {
    Seq::new(names.len(), |i: int| jaro_winkler_bits(names[i], query))
}

/// Whether an identity goes by a name already.
pub open spec fn has_name(names: Map<u64, Vec<String>>, id: u64, name: Seq<char>) -> bool {
    names.contains_key(id) && exists|i: int|
        0 <= i < names[id]@.len() && (#[trigger] names[id]@[i])@ == name
}

/// What noting a name does to the names of the identities: every other
/// identity keeps its names; a new identity has the one name; a known
/// identity has it after those it had, unless it had it.
pub open spec fn update_post(
    before: Map<u64, Vec<String>>,
    after: Map<u64, Vec<String>>,
    id: u64,
    name: Seq<char>,
) -> bool {
    &&& after.contains_key(id)
    &&& forall|other: u64|
        other != id ==> after.contains_key(other) == before.contains_key(other) && (
        #[trigger] before.contains_key(other) ==> after[other] == before[other])
    &&& if has_name(before, id, name) {
        after[id] == before[id]
    } else {
        let held = if before.contains_key(id) {
            before[id]@
        } else {
            Seq::<String>::empty()
        };
        &&& after[id]@.len() == held.len() + 1
        &&& after[id]@.last()@ == name
        &&& forall|i: int| 0 <= i < held.len() ==> (#[trigger] after[id]@[i])@ == held[i]@
    }
}

/// Whether a list of names holds a name.
pub fn holds(names: &Vec<String>, name: &str) -> (r: bool)
    ensures
        r == exists|i: int| 0 <= i < names@.len() && (#[trigger] names@[i])@ == name@,
{
    let mut i: usize = 0;
    while i < names.len()
        invariant
            i <= names.len(),
            forall|j: int| 0 <= j < i ==> (#[trigger] names@[j])@ != name@,
        decreases names.len() - i,
    {
        if crate::util::text::str_eq(names[i].as_str(), name) {
            return true;
        }
        i += 1;
    }
    false
}

/// A copy of a list of names.
pub fn copy_names(names: &Vec<String>) -> (r: Vec<String>)
    ensures
        r@.len() == names@.len(),
        forall|i: int| 0 <= i < r@.len() ==> (#[trigger] r@[i])@ == names@[i]@,
{
    let mut out: Vec<String> = Vec::new();
    let mut i: usize = 0;
    while i < names.len()
        invariant
            i <= names.len(),
            out@.len() == i,
            forall|j: int| 0 <= j < i ==> (#[trigger] out@[j])@ == names@[j]@,
        decreases names.len() - i,
    {
        out.push(names[i].clone());
        i += 1;
    }
    out
}

/// The names of every entry with the entry's identity, in the order of the
/// entries.
pub open spec fn pairs_of(entries: Seq<(u64, Vec<String>)>) -> Seq<(Seq<char>, u64)>
    decreases entries.len(),
{
    if entries.len() == 0 {
        Seq::empty()
    } else {
        pairs_of(entries.drop_last()) + Seq::new(
            entries.last().1@.len(),
            |j: int| (entries.last().1@[j]@, entries.last().0),
        )
    }
}

/// The identity that a list of pairs gives a name: that of the last pair
/// with the name.
pub open spec fn owner_in(pairs: Seq<(Seq<char>, u64)>, name: Seq<char>) -> Option<u64>
    decreases pairs.len(),
{
    if pairs.len() == 0 {
        None
    } else if pairs.last().0 == name {
        Some(pairs.last().1)
    } else {
        owner_in(pairs.drop_last(), name)
    }
}

/// The names of a list of pairs, each once, in the order in which they
/// first stand in the list.
pub open spec fn first_seen(pairs: Seq<(Seq<char>, u64)>) -> Seq<Seq<char>>
    decreases pairs.len(),
{
    if pairs.len() == 0 {
        Seq::empty()
    } else {
        let head = first_seen(pairs.drop_last());
        if head.contains(pairs.last().0) {
            head
        } else {
            head.push(pairs.last().0)
        }
    }
}

/// The names that a list of entries gives each identity: those of the last
/// entry of the identity.
pub open spec fn names_in(entries: Seq<(u64, Vec<String>)>) -> Map<u64, Vec<String>>
    decreases entries.len(),
{
    if entries.len() == 0 {
        Map::empty()
    } else {
        names_in(entries.drop_last()).insert(entries.last().0, entries.last().1)
    }
}

/// Whether there is an entry, and every entry has a name.
pub open spec fn is_complete(entries: Seq<(u64, Vec<String>)>) -> bool {
    entries.len() > 0 && forall|i: int| 0 <= i < entries.len() ==> (#[trigger] entries[i]).1@.len() > 0
}

/// The authors. Every identity goes by at least one name, the first of
/// which is shown; every name belongs to one identity.
pub struct Authors {
    id_to_str: HashMap<u64, Vec<String>>,
    str_to_id: NameMap<u64>,
}

impl Authors {
    #[verifier::type_invariant]
    spec fn inv(self) -> bool {
        &&& self.str_to_id.wf()
        &&& forall|id: u64| #[trigger]
            self.id_to_str@.contains_key(id) ==> self.id_to_str@[id]@.len() > 0
    }

    /// The names that each identity goes by.
    pub closed spec fn names(&self) -> Map<u64, Vec<String>> {
        self.id_to_str@
    }

    /// The names that are known, in the order in which they came.
    pub closed spec fn known(&self) -> Seq<Seq<char>> {
        self.str_to_id.names()
    }

    /// The identity of each known name, at the index of the name.
    pub closed spec fn owners(&self) -> Seq<u64> {
        self.str_to_id.values()
    }

    /// The authors with no one among them.
    pub fn new() -> (r: Self)
        ensures
            r.names() == Map::<u64, Vec<String>>::empty(),
            r.known() == Seq::<Seq<char>>::empty(),
    {
        Authors { id_to_str: HashMap::new(), str_to_id: NameMap::new() }
    }

    /// The authors that a list of entries names: each entry is an identity
    /// and the names it goes by. `None` where there is no entry, or an entry
    /// without a name.
    pub fn open(entries: Vec<(u64, Vec<String>)>) -> (r: Option<Self>)
        ensures
            match r {
                Some(authors) => {
                    &&& is_complete(entries@)
                    &&& authors.names() == names_in(entries@)
                    &&& authors.known() == first_seen(pairs_of(entries@))
                    &&& forall|name: Seq<char>|
                        authors.lookup(name) == owner_in(pairs_of(entries@), name)
                },
                None => !is_complete(entries@),
            },
    {
        broadcast use vstd::std_specs::hash::group_hash_axioms;

        if entries.len() == 0 {
            return None;
        }
        let ghost all = entries@;
        let mut id_to_str: HashMap<u64, Vec<String>> = HashMap::new();
        let mut str_to_id: NameMap<u64> = NameMap::new();
        let n = entries.len();
        let mut items = entries;
        let mut i: usize = 0;
        proof {
            assert(all.take(0) =~= Seq::<(u64, Vec<String>)>::empty());
            assert(id_to_str@ =~= names_in(all.take(0)));
            assert forall|name: Seq<char>| str_to_id.lookup(name) == owner_in(
                pairs_of(all.take(0)),
                name,
            ) by {}
        }
        while i < n
            invariant
                i <= n,
                n == all.len(),
                all == entries@,
                items@.len() == n,
                forall|j: int| i <= j < n ==> items@[j] == all[j],
                forall|j: int| 0 <= j < i ==> (#[trigger] all[j]).1@.len() > 0,
                str_to_id.wf(),
                str_to_id.names() == first_seen(pairs_of(all.take(i as int))),
                id_to_str@ == names_in(all.take(i as int)),
                forall|id: u64| #[trigger] id_to_str@.contains_key(id) ==> id_to_str@[id]@.len() > 0,
                forall|name: Seq<char>|
                    str_to_id.lookup(name) == owner_in(pairs_of(all.take(i as int)), name),
            decreases n - i,
        {
            let mut entry: (u64, Vec<String>) = (0, Vec::new());
            std::mem::swap(&mut entry, &mut items[i]);
            let (id, names) = entry;
            if names.len() == 0 {
                assert(all[i as int].1@.len() == 0);
                return None;
            }
            let ghost done = pairs_of(all.take(i as int));
            let ghost these = Seq::new(names@.len(), |j: int| (names@[j]@, id));
            let mut k: usize = 0;
            assert(done + these.take(0) =~= done);
            while k < names.len()
                invariant
                    k <= names.len(),
                    str_to_id.wf(),
                    these == Seq::new(names@.len(), |j: int| (names@[j]@, id)),
                    str_to_id.names() == first_seen(done + these.take(k as int)),
                    forall|name: Seq<char>|
                        str_to_id.lookup(name) == owner_in(done + these.take(k as int), name),
                decreases names.len() - k,
            {
                let ghost before = str_to_id;
                str_to_id.insert(names[k].clone(), id);
                proof {
                    lemma_insert_lookup(before, str_to_id, names@[k as int]@, id);
                    let next = done + these.take(k + 1);
                    assert(next.drop_last() =~= done + these.take(k as int));
                    assert(next.last() == (names@[k as int]@, id));
                }
                k += 1;
            }
            proof {
                assert(these.take(names@.len() as int) =~= these);
                assert(all.take(i + 1).drop_last() =~= all.take(i as int));
                assert(all.take(i + 1).last() == all[i as int]);
                assert(pairs_of(all.take(i + 1)) =~= done + these);
            }
            id_to_str.insert(id, names);
            i += 1;
        }
        assert(all.take(n as int) =~= all);
        Some(Authors { id_to_str, str_to_id })
    }

    /// The identity that a known name belongs to.
    pub closed spec fn lookup(&self, name: Seq<char>) -> Option<u64> {
        self.str_to_id.lookup(name)
    }

    /// How many identities there are.
    pub fn len(&self) -> (r: usize)
        ensures
            r == self.names().len(),
    {
        broadcast use vstd::std_specs::hash::group_hash_axioms;

        self.id_to_str.len()
    }

    /// Whether there is no identity.
    pub fn is_empty(&self) -> (r: bool)
        ensures
            r == (self.names().len() == 0),
    {
        self.len() == 0
    }

    /// The name that an identity is shown by: its first.
    pub fn get_name(&self, id: u64) -> (r: Option<&str>)
        ensures
            match r {
                Some(name) => self.names().contains_key(id) && self.names()[id]@.len() > 0 && name@
                    == self.names()[id]@[0]@,
                None => !self.names().contains_key(id),
            },
    {
        broadcast use vstd::std_specs::hash::group_hash_axioms;

        proof {
            use_type_invariant(self);
        }
        match self.id_to_str.get(&id) {
            Some(names) => Some(names[0].as_str()),
            None => None,
        }
    }

    /// The names that an identity goes by.
    pub fn get_names(&self, id: u64) -> (r: Option<&Vec<String>>)
        ensures
            match r {
                Some(names) => self.names().contains_key(id) && *names == self.names()[id],
                None => !self.names().contains_key(id),
            },
    {
        broadcast use vstd::std_specs::hash::group_hash_axioms;

        self.id_to_str.get(&id)
    }

    /// How many names are known.
    pub fn name_count(&self) -> (r: usize)
        ensures
            r == self.known().len(),
            self.owners().len() == self.known().len(),
    {
        self.str_to_id.len()
    }

    /// The known name at an index and its identity, or `None` past the end.
    pub fn name_at(&self, index: usize) -> (r: Option<(&String, u64)>)
        ensures
            match r {
                Some((name, id)) => index < self.known().len() && name@ == self.known()[index as int]
                    && id == self.owners()[index as int],
                None => index >= self.known().len(),
            },
    {
        match self.str_to_id.get_index(index) {
            Some((name, id)) => Some((name, *id)),
            None => None,
        }
    }

    /// The identity whose name is most similar to `name`: among the known
    /// names, the first of the greatest similarity. `None` where no name is
    /// known.
    pub fn get_id(&self, name: &str) -> (r: Option<u64>)
        ensures
            match r {
                Some(id) => self.known().len() > 0 && id == self.owners()[first_greatest(
                    name_scores(self.known(), name@),
                )],
                None => self.known().len() == 0,
            },
    {
        let n = self.str_to_id.len();
        if n == 0 {
            return None;
        }
        let mut scores: Vec<u64> = Vec::new();
        let mut i: usize = 0;
        while i < n
            invariant
                i <= n,
                n == self.str_to_id.names().len(),
                self.str_to_id.wf(),
                scores@.len() == i,
                forall|j: int|
                    0 <= j < i ==> #[trigger] scores@[j] == jaro_winkler_bits(
                        self.str_to_id.names()[j],
                        name@,
                    ),
            decreases n - i,
        {
            match self.str_to_id.get_index(i) {
                Some((known, _)) => {
                    scores.push(crate::util::memory::similarity(known.as_str(), name));
                },
                None => {
                    assert(false);
                },
            }
            i += 1;
        }
        assert(scores@ =~= name_scores(self.known(), name@));
        let best = greatest_of(&scores);
        match self.str_to_id.get_index(best) {
            Some((_, id)) => Some(*id),
            None => vstd::pervasive::unreached(),
        }
    }

    /// Notes that an identity goes by a name. A new identity gets the name
    /// as its first; a known identity gets it after those it has, unless it
    /// has it already. A name that is known keeps the identity it has.
    pub fn update(&mut self, id: u64, new_name: String)
        ensures
            update_post(old(self).names(), final(self).names(), id, new_name@),
            has_name(old(self).names(), id, new_name@) ==> *final(self) == *old(self),
            old(self).known().contains(new_name@) ==> final(self).known() == old(self).known()
                && final(self).owners() == old(self).owners(),
            !old(self).known().contains(new_name@) && !has_name(old(self).names(), id, new_name@)
                ==> final(self).known() == old(self).known().push(new_name@) && final(
                self).owners() == old(self).owners().push(id),
    {
        broadcast use vstd::std_specs::hash::group_hash_axioms;

        proof {
            use_type_invariant(&*self);
        }
        let mut names: Vec<String> = match self.id_to_str.get(&id) {
            None => Vec::new(),
            Some(held) => {
                if holds(held, new_name.as_str()) {
                    return;
                }
                copy_names(held)
            },
        };
        names.push(new_name.clone());
        let mut taken = Authors { id_to_str: HashMap::new(), str_to_id: NameMap::new() };
        std::mem::swap(self, &mut taken);
        let Authors { mut id_to_str, mut str_to_id } = taken;
        id_to_str.insert(id, names);
        if !str_to_id.contains_key(new_name.as_str()) {
            str_to_id.insert(new_name, id);
        }
        *self = Authors { id_to_str, str_to_id };
    }
}

} // verus!
