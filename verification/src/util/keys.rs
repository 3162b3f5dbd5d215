//! A layout's key assignment: which position each character sits at.

use std::collections::HashMap;
use vstd::prelude::*;
use vstd::std_specs::hash::spec_hash_map_iter;
use vstd::std_specs::iter::IteratorSpec;
use vstd::set_lib::lemma_map_size;
use vstd::relations::injective_on;
use crate::util::model::Position;

verus! {

/// Two characters with the same code point are the same character.
pub proof fn lemma_code_point_injective(a: char, b: char)
    ensures
        a as u32 == b as u32 ==> a == b,
{
    vstd::utf8::char_u32_cast(a, a as u32);
    vstd::utf8::char_u32_cast(b, b as u32);
}

/// The assignment of characters to positions. No character is assigned
/// twice: assigning one again replaces its position.
pub struct Layout {
    map: HashMap<u32, (char, Position)>,
}

impl View for Layout {
    type V = Map<char, Position>;

    closed spec fn view(&self) -> Map<char, Position> {
        Map::new(|c: char| self.map@.contains_key(c as u32), |c: char| self.map@[c as u32].1)
    }
}

impl Layout {
    #[verifier::type_invariant]
    spec fn inv(self) -> bool {
        forall|k: u32| #[trigger] self.map@.contains_key(k) ==> self.map@[k].0 as u32 == k
    }

    proof fn lemma_dom(self)
        requires
            self.inv(),
            self.map@.dom().finite(),
        ensures
            self@.dom().finite(),
            self@.len() == self.map@.len(),
    {
        let f = |k: u32| self.map@[k].0;
        let x = self.map@.dom();
        assert(injective_on(f, x));
        assert(x.map(f) =~= self@.dom()) by {
            assert forall|c: char| x.map(f).contains(c) == self@.dom().contains(c) by {
                if self@.dom().contains(c) {
                    lemma_code_point_injective(f(c as u32), c);
                    assert(x.contains(c as u32) && f(c as u32) == c);
                }
            }
        }
        lemma_map_size(x, self@.dom(), f);
    }

    /// The assignment with no keys.
    pub fn new() -> (r: Self)
        ensures
            r@ == Map::<char, Position>::empty(),
    {
        let r = Layout { map: HashMap::new() };
        assert(r@ =~= Map::<char, Position>::empty());
        r
    }

    /// How many characters are assigned.
    pub fn len(&self) -> (r: usize)
        ensures
            self@.dom().finite(),
            r == self@.len(),
    {
        broadcast use vstd::std_specs::hash::group_hash_axioms;

        proof {
            use_type_invariant(self);
            self.lemma_dom();
        }
        self.map.len()
    }

    /// The position of `key`, if it is assigned.
    pub fn get(&self, key: char) -> (r: Option<Position>)
        ensures
            r == (if self@.contains_key(key) {
                Some(self@[key])
            } else {
                None
            }),
    {
        broadcast use vstd::std_specs::hash::group_hash_axioms;

        let k: u32 = key as u32;
        match self.map.get(&k) {
            Some(entry) => Some(entry.1),
            None => None,
        }
    }

    /// Whether `key` is assigned.
    pub fn contains_key(&self, key: char) -> (r: bool)
        ensures
            r == self@.contains_key(key),
    {
        broadcast use vstd::std_specs::hash::group_hash_axioms;

        let k: u32 = key as u32;
        self.map.contains_key(&k)
    }

    /// Assigns `key` to `pos` and returns the position it had before, if any.
    pub fn insert(&mut self, key: char, pos: Position) -> (r: Option<Position>)
        ensures
            final(self)@ == old(self)@.insert(key, pos),
            r == (if old(self)@.contains_key(key) {
                Some(old(self)@[key])
            } else {
                None
            }),
    {
        broadcast use vstd::std_specs::hash::group_hash_axioms;

        proof {
            use_type_invariant(&*self);
        }
        let k: u32 = key as u32;
        let mut map: HashMap<u32, (char, Position)> = HashMap::new();
        std::mem::swap(&mut self.map, &mut map);
        let before = map.insert(k, (key, pos));
        std::mem::swap(&mut self.map, &mut map);
        proof {
            assert(self@ =~= old(self)@.insert(key, pos)) by {
                assert forall|c: char| #[trigger]
                    self@.contains_key(c) == old(self)@.insert(key, pos).contains_key(c) by {
                    lemma_code_point_injective(c, key);
                }
                assert forall|c: char| #[trigger] self@.contains_key(c) implies self@[c] == old(
                    self,
                )@.insert(key, pos)[c] by {
                    lemma_code_point_injective(c, key);
                }
            }
        }
        match before {
            Some(entry) => Some(entry.1),
            None => None,
        }
    }

    /// Every assigned character with its position, each once, in no
    /// particular order.
    pub fn entries(&self) -> (r: Vec<(char, Position)>)
        ensures
            self@.dom().finite(),
            r@.len() == self@.len(),
            forall|i: int| 0 <= i < r@.len() ==> self@.contains_pair(#[trigger] r@[i].0, r@[i].1),
            forall|c: char|
                self@.contains_key(c) ==> exists|i: int| 0 <= i < r@.len() && #[trigger] r@[i].0 == c,
            forall|i: int, j: int| 0 <= i < j < r@.len() ==> #[trigger] r@[i].0 != #[trigger] r@[j].0,
    {
        broadcast use vstd::std_specs::hash::group_hash_axioms;

        proof {
            use_type_invariant(self);
            self.lemma_dom();
        }
        let mut out: Vec<(char, Position)> = Vec::new();
        let ghost all = spec_hash_map_iter(&self.map).remaining();
        for kv in it: self.map.iter()
            invariant
                it.seq() == all,
                all == spec_hash_map_iter(&self.map).remaining(),
                all.no_duplicates(),
                self.inv(),
                out@.len() == it.index(),
                forall|i: int| 0 <= i < out@.len() ==> #[trigger] out@[i] == *all[i].1,
        {
            out.push(*kv.1);
        }
        proof {
            assert forall|i: int| 0 <= i < out@.len() implies self@.contains_pair(
                #[trigger] out@[i].0,
                out@[i].1,
            ) by {
                assert(self.map@.contains_key(*all[i].0));
            }
            assert forall|c: char| self@.contains_key(c) implies exists|i: int|
                0 <= i < out@.len() && #[trigger] out@[i].0 == c by {
                let k = c as u32;
                assert(self.map@.contains_key(k));
                assert(all.contains((&k, &self.map@[k])));
                let i = choose|i: int| 0 <= i < all.len() && all[i] == (&k, &self.map@[k]);
                lemma_code_point_injective(out@[i].0, c);
                assert(out@[i].0 == c);
            }
            assert forall|i: int, j: int| 0 <= i < j < out@.len() implies #[trigger] out@[i].0
                != #[trigger] out@[j].0 by {
                assert(self.map@.contains_key(*all[i].0));
                assert(self.map@.contains_key(*all[j].0));
                if out@[i].0 == out@[j].0 {
                    assert(*all[i].0 == *all[j].0);
                    assert(all[i] == all[j]);
                }
            }
        }
        out
    }
}

} // verus!
