//! A map from names to values that keeps the order in which the names came:
//! the names in an `indexmap::IndexSet`, the values beside them in a vector.

use vstd::prelude::*;
use crate::util::text::{
    chars_of, is_ascending, lemma_lex_total, lemma_lex_transitive, lex_le, text_le,
};

verus! {

/// The hasher `fxhash::FxHasher`; nothing is known of what is inside.
#[verifier::external_type_specification]
#[verifier::external_body]
pub struct ExFxHasher(fxhash::FxHasher);

/// The hasher builder `std::hash::BuildHasherDefault`; nothing is known of
/// what is inside.
#[verifier::external_type_specification]
#[verifier::external_body]
#[verifier::reject_recursive_types(H)]
pub struct ExBuildHasherDefault<H>(std::hash::BuildHasherDefault<H>);

/// The set `indexmap::IndexSet`; what it holds is known through `names_of`
/// alone.
#[verifier::external_type_specification]
#[verifier::external_body]
#[verifier::reject_recursive_types(T)]
#[verifier::reject_recursive_types(S)]
pub struct ExIndexSet<T, S>(indexmap::IndexSet<T, S>);

/// An insertion-ordered set of names.
pub type NameSet = indexmap::IndexSet<String, fxhash::FxBuildHasher>;

/// The names that an `IndexSet` holds, in its order.
pub uninterp spec fn names_of(s: NameSet) -> Seq<Seq<char>>;

/// `IndexSet::default`: a set that holds nothing.
#[verifier::external_body]
fn set_new() -> (r: NameSet)
    ensures
        names_of(r) == Seq::<Seq<char>>::empty(),
{
    indexmap::IndexSet::default()
}

/// `IndexSet::len`: the number of names held.
#[verifier::external_body]
fn set_len(s: &NameSet) -> (r: usize)
    ensures
        r == names_of(*s).len(),
{
    s.len()
}

/// `IndexSet::get_index_of`: the index at which the name is held, or `None`
/// where the set does not hold it.
#[verifier::external_body]
fn set_index_of(s: &NameSet, name: &str) -> (r: Option<usize>)
    ensures
        match r {
            Some(i) => i < names_of(*s).len() && names_of(*s)[i as int] == name@,
            None => !names_of(*s).contains(name@),
        },
{
    s.get_index_of(name)
}

/// `IndexSet::get_index`: the name held at an index, or `None` past the end.
#[verifier::external_body]
fn set_get_index(s: &NameSet, index: usize) -> (r: Option<&String>)
    ensures
        match r {
            Some(name) => index < names_of(*s).len() && name@ == names_of(*s)[index as int],
            None => index >= names_of(*s).len(),
        },
{
    s.get_index(index)
}

/// `IndexSet::insert_full`: a name that the set holds stays where it is, and
/// its index comes back with `false`; a new name goes to the end, and its
/// index comes back with `true`.
#[verifier::external_body]
fn set_insert_full(s: &mut NameSet, name: String) -> (r: (usize, bool))
    ensures
        r.1 == !names_of(*old(s)).contains(name@),
        r.1 ==> r.0 == names_of(*old(s)).len() && names_of(*final(s)) == names_of(*old(s)).push(
            name@,
        ),
        !r.1 ==> r.0 < names_of(*old(s)).len() && names_of(*old(s))[r.0 as int] == name@
            && names_of(*final(s)) == names_of(*old(s)),
{
    s.insert_full(name)
}

/// `IndexSet::shift_remove_full`: takes the name out, moving those after it
/// one place down, and returns the index it had; `None`, and no change,
/// where the set does not hold the name.
#[verifier::external_body]
fn set_shift_remove_full(s: &mut NameSet, name: &str) -> (r: Option<(usize, String)>)
    ensures
        match r {
            Some((i, held)) => {
                &&& i < names_of(*old(s)).len()
                &&& names_of(*old(s))[i as int] == name@
                &&& held@ == name@
                &&& names_of(*final(s)) == names_of(*old(s)).remove(i as int)
            },
            None => !names_of(*old(s)).contains(name@) && names_of(*final(s)) == names_of(*old(s)),
        },
{
    s.shift_remove_full(name)
}

/// A map from names to values, in the order in which the names were first
/// inserted. No name is held twice.
pub struct NameMap<V> {
    names: NameSet,
    values: Vec<V>,
}

impl<V> NameMap<V> {
    #[verifier::type_invariant]
    spec fn inv(self) -> bool {
        &&& names_of(self.names).len() == self.values@.len()
        &&& names_of(self.names).no_duplicates()
    }

    /// The names, in order.
    pub closed spec fn names(&self) -> Seq<Seq<char>> {
        names_of(self.names)
    }

    /// The values, each at the index of its name.
    pub closed spec fn values(&self) -> Seq<V> {
        self.values@
    }

    /// What holds of every map: as many values as names, and no name twice.
    pub open spec fn wf(&self) -> bool {
        &&& self.names().len() == self.values().len()
        &&& self.names().no_duplicates()
    }

    /// The index of a name, if the map holds it.
    pub open spec fn position(&self, name: Seq<char>) -> Option<int> {
        if self.names().contains(name) {
            Some(self.names().index_of(name))
        } else {
            None
        }
    }

    /// The value of a name, if the map holds it.
    pub open spec fn lookup(&self, name: Seq<char>) -> Option<V> {
        if self.names().contains(name) {
            Some(self.values()[self.names().index_of(name)])
        } else {
            None
        }
    }

    /// The map that holds nothing.
    pub fn new() -> (r: Self)
        ensures
            r.wf(),
            r.names() == Seq::<Seq<char>>::empty(),
            r.values() == Seq::<V>::empty(),
    {
        NameMap { names: set_new(), values: Vec::new() }
    }

    /// How many names the map holds.
    pub fn len(&self) -> (r: usize)
        ensures
            self.wf(),
            r == self.names().len(),
    {
        proof {
            use_type_invariant(self);
        }
        set_len(&self.names)
    }

    /// The index of a name, or `None` where the map does not hold it.
    pub fn index_of(&self, name: &str) -> (r: Option<usize>)
        ensures
            self.wf(),
            match r {
                Some(i) => self.position(name@) == Some(i as int) && i < self.names().len()
                    && self.names()[i as int] == name@,
                None => self.position(name@) is None,
            },
    {
        proof {
            use_type_invariant(self);
        }
        let r = set_index_of(&self.names, name);
        proof {
            if let Some(i) = r {
                assert(self.names().contains(name@));
                let j = self.names().index_of(name@);
                assert(self.names()[j] == name@);
            }
        }
        r
    }

    /// Whether the map holds a name.
    pub fn contains_key(&self, name: &str) -> (r: bool)
        ensures
            self.wf(),
            r == self.names().contains(name@),
    {
        self.index_of(name).is_some()
    }

    /// The value of a name, or `None` where the map does not hold it.
    pub fn get(&self, name: &str) -> (r: Option<&V>)
        ensures
            self.wf(),
            match r {
                Some(v) => self.lookup(name@) == Some(*v),
                None => self.lookup(name@) is None,
            },
    {
        match self.index_of(name) {
            Some(i) => Some(&self.values[i]),
            None => None,
        }
    }

    /// The name and the value at an index, or `None` past the end.
    pub fn get_index(&self, index: usize) -> (r: Option<(&String, &V)>)
        ensures
            self.wf(),
            match r {
                Some((name, v)) => index < self.names().len() && name@ == self.names()[index as int]
                    && *v == self.values()[index as int],
                None => index >= self.names().len(),
            },
    {
        proof {
            use_type_invariant(self);
        }
        match set_get_index(&self.names, index) {
            Some(name) => Some((name, &self.values[index])),
            None => None,
        }
    }

    /// Gives a name a value. A name that the map holds keeps its place and
    /// its old value comes back; a new name goes to the end.
    pub fn insert(&mut self, name: String, value: V) -> (r: Option<V>)
        ensures
            final(self).wf(),
            r == old(self).lookup(name@),
            match old(self).position(name@) {
                Some(i) => final(self).names() == old(self).names() && final(self).values() == old(self).values().update(i, value),
                None => final(self).names() == old(self).names().push(name@) && final(self).values() == old(self).values().push(value),
            },
    {
        proof {
            use_type_invariant(&*self);
        }
        let mut taken = NameMap { names: set_new(), values: Vec::new() };
        std::mem::swap(self, &mut taken);
        let NameMap { mut names, mut values } = taken;
        let ghost before = names_of(names);
        let ghost name_view = name@;
        let (index, fresh) = set_insert_full(&mut names, name);
        let r = if fresh {
            values.push(value);
            proof {
                assert forall|i: int, j: int|
                    0 <= i < before.push(name_view).len() && 0 <= j < before.push(name_view).len()
                        && i != j implies before.push(name_view)[i] != before.push(name_view)[j] by {
                    if i < before.len() {
                        assert(before.contains(before[i]));
                    }
                    if j < before.len() {
                        assert(before.contains(before[j]));
                    }
                }
            }
            None
        } else {
            proof {
                assert(before.contains(name_view));
                let j = before.index_of(name_view);
                assert(before[j] == name_view);
            }
            values.push(value);
            let held = values.swap_remove(index);
            assert(values@ =~= old(self).values().update(index as int, value));
            Some(held)
        };
        *self = NameMap { names, values };
        r
    }

    /// Takes a name out and returns its value; the names after it move one
    /// place down. `None`, and no change, where the map does not hold it.
    pub fn shift_remove(&mut self, name: &str) -> (r: Option<V>)
        ensures
            final(self).wf(),
            r == old(self).lookup(name@),
            match old(self).position(name@) {
                Some(i) => final(self).names() == old(self).names().remove(i) && final(self).values() == old(self).values().remove(i),
                None => final(self).names() == old(self).names() && final(self).values() == old(self).values(),
            },
    {
        proof {
            use_type_invariant(&*self);
        }
        let mut taken = NameMap { names: set_new(), values: Vec::new() };
        std::mem::swap(self, &mut taken);
        let NameMap { mut names, mut values } = taken;
        let ghost before = names_of(names);
        let r = match set_shift_remove_full(&mut names, name) {
            Some((index, _)) => {
                proof {
                    assert(before.contains(name@));
                    let j = before.index_of(name@);
                    assert(before[j] == name@);
                    let after = before.remove(index as int);
                    assert forall|i: int, j: int|
                        0 <= i < after.len() && 0 <= j < after.len() && i != j implies after[i]
                        != after[j] by {
                        let a = if i < index { i } else { i + 1 };
                        let b = if j < index { j } else { j + 1 };
                        assert(after[i] == before[a] && after[j] == before[b]);
                    }
                }
                Some(values.remove(index))
            },
            None => None,
        };
        *self = NameMap { names, values };
        r
    }

    /// The index of the name that stands before all the others.
    pub fn first_name(&self) -> (r: usize)
        requires
            self.names().len() > 0,
        ensures
            r < self.names().len(),
            forall|j: int| 0 <= j < self.names().len() ==> lex_le(self.names()[r as int], #[trigger] self.names()[j]),
    {
        let n = self.len();
        let mut best: usize = 0;
        let mut best_name: Vec<char> = match self.get_index(0) {
            Some((name, _)) => chars_of(name.as_str()),
            None => vstd::pervasive::unreached(),
        };
        let mut i: usize = 1;
        proof {
            lemma_lex_total(self.names()[0], self.names()[0]);
        }
        while i < n
            invariant
                1 <= i <= n,
                n == self.names().len(),
                best < i,
                best_name@ == self.names()[best as int],
                forall|j: int| 0 <= j < i ==> lex_le(self.names()[best as int], #[trigger] self.names()[j]),
            decreases n - i,
        {
            let name = match self.get_index(i) {
                Some((name, _)) => chars_of(name.as_str()),
                None => vstd::pervasive::unreached(),
            };
            if !text_le(&best_name, &name) {
                proof {
                    lemma_lex_total(best_name@, name@);
                    lemma_lex_total(name@, name@);
                    assert forall|j: int| 0 <= j < i + 1 implies lex_le(
                        self.names()[i as int],
                        #[trigger] self.names()[j],
                    ) by {
                        if j < i {
                            lemma_lex_transitive(name@, best_name@, self.names()[j]);
                        }
                    }
                }
                best = i;
                best_name = name;
            }
            i += 1;
        }
        best
    }

    /// Puts the names in ascending order, each with its value.
    pub fn sort_keys(&mut self)
        ensures
            final(self).wf(),
            is_ascending(final(self).names()),
            forall|name: Seq<char>| final(self).lookup(name) == old(self).lookup(name),
    {
        let mut rest: NameMap<V> = NameMap::new();
        std::mem::swap(self, &mut rest);
        let mut done: NameMap<V> = NameMap::new();
        let _ = rest.len();
        while rest.len() > 0
            invariant
                rest.wf(),
                done.wf(),
                is_ascending(done.names()),
                forall|name: Seq<char>|
                    !(done.names().contains(name) && #[trigger] rest.names().contains(name)),
                forall|a: int, b: int|
                    0 <= a < done.names().len() && 0 <= b < rest.names().len() ==> lex_le(
                        #[trigger] done.names()[a],
                        #[trigger] rest.names()[b],
                    ),
                forall|name: Seq<char>|
                    old(self).lookup(name) == (if done.names().contains(name) {
                        done.lookup(name)
                    } else {
                        rest.lookup(name)
                    }),
            decreases rest.names().len(),
        {
            let m = rest.first_name();
            let name = match rest.get_index(m) {
                Some((name, _)) => name.clone(),
                None => vstd::pervasive::unreached(),
            };
            let ghost rest_before = rest;
            let ghost done_before = done;
            let ghost key = name@;
            proof {
                assert(rest_before.names()[m as int] == key);
                assert(rest_before.names().contains(key));
            }
            let value = match rest.shift_remove(name.as_str()) {
                Some(value) => value,
                None => vstd::pervasive::unreached(),
            };
            done.insert(name, value);
            proof {
                let at = rest_before.names().index_of(key);
                assert(rest_before.names()[at] == key);
                assert(at == m);
                lemma_remove_lookup(rest_before, rest, key);
                lemma_insert_lookup(done_before, done, key, value);
                assert(done.names() == done_before.names().push(key));
                assert forall|a: int, b: int| 0 <= a < b < done.names().len() implies lex_le(
                    #[trigger] done.names()[a],
                    #[trigger] done.names()[b],
                ) by {
                    if b == done_before.names().len() {
                        assert(done.names()[a] == done_before.names()[a]);
                        assert(lex_le(done_before.names()[a], rest_before.names()[m as int]));
                    } else {
                        assert(done.names()[a] == done_before.names()[a]);
                        assert(done.names()[b] == done_before.names()[b]);
                    }
                }
                assert forall|a: int, b: int|
                    0 <= a < done.names().len() && 0 <= b < rest.names().len() implies lex_le(
                    #[trigger] done.names()[a],
                    #[trigger] rest.names()[b],
                ) by {
                    let b0 = if b < m { b } else { b + 1 };
                    assert(rest.names()[b] == rest_before.names()[b0]);
                    if a == done_before.names().len() {
                        assert(done.names()[a] == key);
                    } else {
                        assert(done.names()[a] == done_before.names()[a]);
                    }
                }
                assert forall|other: Seq<char>|
                    !(done.names().contains(other) && #[trigger] rest.names().contains(other)) by {
                    if done.names().contains(other) && rest.names().contains(other) {
                        let b = rest.names().index_of(other);
                        assert(rest.names()[b] == other);
                        let b0 = if b < m { b } else { b + 1 };
                        assert(rest_before.names()[b0] == other);
                        assert(rest_before.names().contains(other));
                        let a = done.names().index_of(other);
                        assert(done.names()[a] == other);
                        if a < done_before.names().len() {
                            assert(done_before.names()[a] == other);
                            assert(done_before.names().contains(other));
                        } else {
                            assert(rest_before.names()[m as int] == rest_before.names()[b0]);
                        }
                    }
                }
                assert forall|other: Seq<char>|
                    old(self).lookup(other) == (if done.names().contains(other) {
                        done.lookup(other)
                    } else {
                        rest.lookup(other)
                    }) by {
                    if other != key {
                        assert(done.lookup(other) == done_before.lookup(other));
                        assert(rest.lookup(other) == rest_before.lookup(other));
                    } else {
                        assert(!done_before.names().contains(key));
                    }
                }
            }
        }
        proof {
            assert forall|name: Seq<char>| done.lookup(name) == old(self).lookup(name) by {
                if !done.names().contains(name) {
                    assert(rest.lookup(name) is None);
                }
            }
        }
        *self = done;
    }

    /// Puts a value in the place of the one at an index, and returns the
    /// one that was there.
    pub fn replace_index(&mut self, index: usize, value: V) -> (r: V)
        requires
            index < old(self).names().len(),
        ensures
            final(self).wf(),
            r == old(self).values()[index as int],
            final(self).names() == old(self).names(),
            final(self).values() == old(self).values().update(index as int, value),
    {
        proof {
            use_type_invariant(&*self);
        }
        let mut taken = NameMap { names: set_new(), values: Vec::new() };
        std::mem::swap(self, &mut taken);
        let NameMap { names, mut values } = taken;
        values.push(value);
        let held = values.swap_remove(index);
        assert(values@ =~= old(self).values().update(index as int, value));
        *self = NameMap { names, values };
        held
    }
}

/// After a value is given to a name, the name has that value and every
/// other name has what it had.
pub proof fn lemma_insert_lookup<V>(before: NameMap<V>, after: NameMap<V>, name: Seq<char>, value: V)
    requires
        before.wf(),
        after.wf(),
        match before.position(name) {
            Some(i) => after.names() == before.names() && after.values() == before.values().update(
                i,
                value,
            ),
            None => after.names() == before.names().push(name) && after.values()
                == before.values().push(value),
        },
    ensures
        after.lookup(name) == Some(value),
        forall|other: Seq<char>| other != name ==> after.lookup(other) == before.lookup(other),
{
    let a = before.names();
    let b = after.names();
    match before.position(name) {
        Some(i) => {
            assert(a[i] == name);
            assert forall|other: Seq<char>| other != name implies after.lookup(other)
                == before.lookup(other) by {
                if a.contains(other) {
                    let j = a.index_of(other);
                    assert(a[j] == other);
                }
            }
        },
        None => {
            assert(b[a.len() as int] == name);
            assert(b.contains(name));
            let k = b.index_of(name);
            assert(b[k] == name);
            if k < a.len() {
                assert(a[k] == name);
            }
            assert forall|other: Seq<char>| other != name implies after.lookup(other)
                == before.lookup(other) by {
                if a.contains(other) {
                    let j = a.index_of(other);
                    assert(a[j] == other);
                    assert(b[j] == other);
                    let j2 = b.index_of(other);
                    assert(b[j2] == other);
                    if j2 < a.len() {
                        assert(a[j2] == other);
                    }
                } else if b.contains(other) {
                    let j2 = b.index_of(other);
                    assert(b[j2] == other);
                    if j2 < a.len() {
                        assert(a[j2] == other);
                    }
                }
            }
        },
    }
}

/// After a name is taken out, it has no value and every other name has what
/// it had.
pub proof fn lemma_remove_lookup<V>(before: NameMap<V>, after: NameMap<V>, name: Seq<char>)
    requires
        before.wf(),
        after.wf(),
        match before.position(name) {
            Some(i) => after.names() == before.names().remove(i) && after.values()
                == before.values().remove(i),
            None => after.names() == before.names() && after.values() == before.values(),
        },
    ensures
        after.lookup(name) is None,
        forall|other: Seq<char>| other != name ==> after.lookup(other) == before.lookup(other),
{
    let a = before.names();
    let b = after.names();
    match before.position(name) {
        Some(i) => {
            assert(a[i] == name);
            if b.contains(name) {
                let j = b.index_of(name);
                assert(b[j] == name);
                let j0 = if j < i { j } else { j + 1 };
                assert(a[j0] == name);
            }
            assert forall|other: Seq<char>| other != name implies after.lookup(other)
                == before.lookup(other) by {
                if a.contains(other) {
                    let j = a.index_of(other);
                    assert(a[j] == other);
                    let k = if j < i { j } else { j - 1 };
                    assert(b[k] == other);
                    let k2 = b.index_of(other);
                    assert(b[k2] == other);
                    assert(k2 == k);
                } else if b.contains(other) {
                    let k = b.index_of(other);
                    assert(b[k] == other);
                    let j0 = if k < i { k } else { k + 1 };
                    assert(a[j0] == other);
                }
            }
        },
        None => {},
    }
}

} // verus!
