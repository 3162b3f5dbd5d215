//! A layout as text: four characters a key (the key itself, then the three
//! digits of its position), the keys in ascending order of row, then
//! column, then code point.

use vstd::prelude::*;
use crate::util::conv::pos;
use crate::util::keys::Layout;
use crate::util::model::Position;
use crate::util::text::{chars_of, string_of};

verus! {

/// A key with its position.
pub type Entry = (char, Position);

/// What the keys are ordered by: the row, then the column, then the key's
/// code point.
pub open spec fn sort_key(e: Entry) -> int {
    (e.1.0 as int * 256 + e.1.1 as int) * 0x1_0000_0000 + e.0 as u32 as int
}

/// Whether the entries stand in strictly ascending order.
pub open spec fn is_sorted(s: Seq<Entry>) -> bool {
    forall|i: int, j: int| 0 <= i < j < s.len() ==> sort_key(#[trigger] s[i]) < sort_key(#[trigger] s[j])
}

/// Whether the entries are those of the assignment: each entry is an
/// assigned key with its position, and each assigned key has an entry.
pub open spec fn lists(s: Seq<Entry>, m: Map<char, Position>) -> bool {
    &&& forall|i: int| 0 <= i < s.len() ==> m.contains_pair((#[trigger] s[i]).0, s[i].1)
    &&& forall|c: char| #[trigger]
        m.contains_key(c) ==> exists|i: int| 0 <= i < s.len() && (#[trigger] s[i]).0 == c
}

/// Whether `s` is the assignment `m` written in ascending order.
pub open spec fn is_canonical(s: Seq<Entry>, m: Map<char, Position>) -> bool {
    is_sorted(s) && lists(s, m)
}

/// The entries of an assignment in ascending order.
pub open spec fn canonical(m: Map<char, Position>) -> Seq<Entry> {
    choose|s: Seq<Entry>| is_canonical(s, m)
}

/// The text of a sequence of entries: four characters an entry.
pub open spec fn encode(es: Seq<Entry>) -> Seq<char> {
    Seq::new(
        4 * es.len(),
        |k: int|
            if k % 4 == 0 {
                es[k / 4].0
            } else {
                pos::pack_spec(es[k / 4].1)[k % 4 - 1]
            },
    )
}

/// The packed text of an assignment.
pub open spec fn pack_spec(m: Map<char, Position>) -> Seq<char> {
    encode(canonical(m))
}

/// The position that the `i`-th group of four characters spells.
pub open spec fn chunk_pos(s: Seq<char>, i: int) -> Option<Position> {
    pos::unpack_spec(s.subrange(4 * i + 1, 4 * i + 4))
}

/// Whether the text is a packed assignment: whole groups of four, each a key
/// followed by three hexadecimal digits, and no key twice.
pub open spec fn is_packed(s: Seq<char>) -> bool {
    &&& s.len() % 4 == 0
    &&& forall|i: int| 0 <= i < s.len() / 4 ==> (#[trigger] chunk_pos(s, i)) is Some
    &&& forall|i: int, j: int| 0 <= i < j < s.len() / 4 ==> #[trigger] s[4 * i] != #[trigger] s[4 * j]
}

/// The entries that a packed text spells, in the order of the text.
pub open spec fn decode(s: Seq<char>) -> Seq<Entry> {
    Seq::new((s.len() / 4) as nat, |i: int| (s[4 * i], chunk_pos(s, i).unwrap()))
}

/// The assignment that holds the entries.
pub open spec fn map_of(es: Seq<Entry>) -> Map<char, Position> {
    Map::new(
        |c: char| exists|i: int| 0 <= i < es.len() && (#[trigger] es[i]).0 == c,
        |c: char| es[choose|i: int| 0 <= i < es.len() && (#[trigger] es[i]).0 == c].1,
    )
}

/// The assignment that a packed text spells, or `None` where the text is not
/// a packed assignment.
pub open spec fn unpack_spec(s: Seq<char>) -> Option<Map<char, Position>> {
    if is_packed(s) {
        Some(map_of(decode(s)))
    } else {
        None
    }
}

/// Two entries of one assignment with the same sort key are the same entry.
proof fn lemma_key_decides(a: Entry, b: Entry, m: Map<char, Position>)
    requires
        m.contains_pair(a.0, a.1),
        m.contains_pair(b.0, b.1),
    ensures
        sort_key(a) == sort_key(b) <==> a == b,
        a.0 == b.0 <==> a == b,
{
    if sort_key(a) == sort_key(b) {
        assert(a.0 as u32 == b.0 as u32);
        crate::util::keys::lemma_code_point_injective(a.0, b.0);
    }
}

/// An assignment has at most one ascending sequence of its entries.
pub proof fn lemma_canonical_unique(s1: Seq<Entry>, s2: Seq<Entry>, m: Map<char, Position>)
    requires
        is_canonical(s1, m),
        is_canonical(s2, m),
    ensures
        s1 == s2,
    decreases s1.len(),
{
    if s1.len() == 0 {
        if s2.len() > 0 {
            assert(m.contains_pair(s2[0].0, s2[0].1));
            assert(m.contains_key(s2[0].0));
        }
        assert(s1 =~= s2);
    } else {
        let a = s1.last();
        assert(m.contains_pair(a.0, a.1));
        assert(m.contains_key(a.0));
        let j = choose|j: int| 0 <= j < s2.len() && (#[trigger] s2[j]).0 == a.0;
        let b = s2.last();
        assert(m.contains_pair(b.0, b.1));
        assert(m.contains_key(b.0));
        let i = choose|i: int| 0 <= i < s1.len() && (#[trigger] s1[i]).0 == b.0;
        assert(m.contains_pair(s2[j].0, s2[j].1));
        assert(m.contains_pair(s1[i].0, s1[i].1));
        lemma_key_decides(s2[j], a, m);
        lemma_key_decides(s1[i], b, m);
        assert(sort_key(s2[j]) <= sort_key(b));
        assert(sort_key(s1[i]) <= sort_key(a));
        lemma_key_decides(a, b, m);
        assert(a == b);
        let m2 = m.remove(a.0);
        let t1 = s1.drop_last();
        let t2 = s2.drop_last();
        lemma_drop_last_canonical(s1, m);
        lemma_drop_last_canonical(s2, m);
        lemma_canonical_unique(t1, t2, m2);
        assert(s1 =~= t1.push(a));
        assert(s2 =~= t2.push(b));
    }
}

/// An ascending sequence without its last entry is the ascending sequence of
/// the assignment without that key.
proof fn lemma_drop_last_canonical(s: Seq<Entry>, m: Map<char, Position>)
    requires
        is_canonical(s, m),
        s.len() > 0,
    ensures
        is_canonical(s.drop_last(), m.remove(s.last().0)),
{
    let a = s.last();
    let t = s.drop_last();
    let m2 = m.remove(a.0);
    assert forall|i: int| 0 <= i < t.len() implies m2.contains_pair((#[trigger] t[i]).0, t[i].1) by {
        assert(t[i] == s[i]);
        assert(m.contains_pair(s[i].0, s[i].1));
        assert(m.contains_pair(a.0, a.1));
        lemma_key_decides(s[i], a, m);
        assert(sort_key(s[i]) < sort_key(s[s.len() - 1]));
    }
    assert forall|c: char| #[trigger] m2.contains_key(c) implies exists|i: int|
        0 <= i < t.len() && (#[trigger] t[i]).0 == c by {
        assert(m.contains_key(c));
        let i = choose|i: int| 0 <= i < s.len() && (#[trigger] s[i]).0 == c;
        assert(i < s.len() - 1);
        assert(t[i] == s[i]);
    }
    assert forall|i: int, j: int| 0 <= i < j < t.len() implies sort_key(#[trigger] t[i]) < sort_key(
        #[trigger] t[j],
    ) by {
        assert(t[i] == s[i] && t[j] == s[j]);
    }
}

/// Where a key belongs in an ascending sequence: after every entry below it
/// and before every entry that is not.
proof fn lemma_insert_point(s: Seq<Entry>, key: int) -> (k: int)
    requires
        is_sorted(s),
    ensures
        0 <= k <= s.len(),
        forall|i: int| 0 <= i < k ==> sort_key(#[trigger] s[i]) < key,
        forall|i: int| k <= i < s.len() ==> sort_key(#[trigger] s[i]) >= key,
    decreases s.len(),
{
    if s.len() == 0 {
        0
    } else if sort_key(s.last()) < key {
        assert forall|i: int| 0 <= i < s.len() implies sort_key(#[trigger] s[i]) < key by {
            if i < s.len() - 1 {
                assert(sort_key(s[i]) < sort_key(s[s.len() - 1]));
            }
        }
        s.len() as int
    } else {
        let t = s.drop_last();
        assert forall|i: int, j: int| 0 <= i < j < t.len() implies sort_key(#[trigger] t[i])
            < sort_key(#[trigger] t[j]) by {
            assert(t[i] == s[i] && t[j] == s[j]);
        }
        let k = lemma_insert_point(t, key);
        assert forall|i: int| 0 <= i < k implies sort_key(#[trigger] s[i]) < key by {
            assert(t[i] == s[i]);
        }
        assert forall|i: int| k <= i < s.len() implies sort_key(#[trigger] s[i]) >= key by {
            if i < s.len() - 1 {
                assert(t[i] == s[i]);
            }
        }
        k
    }
}

/// Putting a new key at its place in an ascending sequence gives the
/// ascending sequence of the assignment with that key.
proof fn lemma_insert_canonical(s: Seq<Entry>, m: Map<char, Position>, e: Entry, k: int)
    requires
        is_canonical(s, m),
        !m.contains_key(e.0),
        0 <= k <= s.len(),
        forall|i: int| 0 <= i < k ==> sort_key(#[trigger] s[i]) < sort_key(e),
        forall|i: int| k <= i < s.len() ==> sort_key(#[trigger] s[i]) > sort_key(e),
    ensures
        is_canonical(s.insert(k, e), m.insert(e.0, e.1)),
{
    let t = s.insert(k, e);
    let m2 = m.insert(e.0, e.1);
    assert forall|i: int| 0 <= i < t.len() implies m2.contains_pair((#[trigger] t[i]).0, t[i].1) by {
        if i < k {
            assert(t[i] == s[i]);
            assert(m.contains_pair(s[i].0, s[i].1));
        } else if i > k {
            assert(t[i] == s[i - 1]);
            assert(m.contains_pair(s[i - 1].0, s[i - 1].1));
        }
    }
    assert forall|c: char| #[trigger] m2.contains_key(c) implies exists|i: int|
        0 <= i < t.len() && (#[trigger] t[i]).0 == c by {
        if c == e.0 {
            assert(t[k] == e);
        } else {
            assert(m.contains_key(c));
            let i = choose|i: int| 0 <= i < s.len() && (#[trigger] s[i]).0 == c;
            if i < k {
                assert(t[i] == s[i]);
            } else {
                assert(t[i + 1] == s[i]);
            }
        }
    }
    assert forall|i: int, j: int| 0 <= i < j < t.len() implies sort_key(#[trigger] t[i]) < sort_key(
        #[trigger] t[j],
    ) by {
        let a = if i < k { s[i] } else if i == k { e } else { s[i - 1] };
        let b = if j < k { s[j] } else if j == k { e } else { s[j - 1] };
        assert(t[i] == a && t[j] == b);
        if i < k && j > k {
            assert(sort_key(s[i]) < sort_key(e));
            assert(sort_key(s[j - 1]) > sort_key(e));
        } else if i < k && j < k {
            assert(sort_key(s[i]) < sort_key(s[j]));
        } else if i > k {
            assert(sort_key(s[i - 1]) < sort_key(s[j - 1]));
        }
    }
}

/// Every finite assignment has an ascending sequence of its entries.
pub proof fn lemma_canonical_exists(m: Map<char, Position>)
    requires
        m.dom().finite(),
    ensures
        is_canonical(canonical(m), m),
    decreases m.dom().len(),
{
    if m.dom().len() == 0 {
        let s = Seq::<Entry>::empty();
        assert forall|c: char| #[trigger] m.contains_key(c) implies false by {
            assert(m.dom().contains(c));
            assert(m.dom() =~= Set::<char>::empty());
        }
        assert(is_canonical(s, m));
    } else {
        let c = m.dom().choose();
        assert(m.dom().contains(c));
        let m1 = m.remove(c);
        let e: Entry = (c, m[c]);
        lemma_canonical_exists(m1);
        let s1 = canonical(m1);
        let k = lemma_insert_point(s1, sort_key(e));
        assert forall|i: int| k <= i < s1.len() implies sort_key(#[trigger] s1[i]) > sort_key(e) by {
            assert(m1.contains_pair(s1[i].0, s1[i].1));
            assert(m.contains_pair(s1[i].0, s1[i].1));
            assert(m.contains_pair(e.0, e.1));
            lemma_key_decides(s1[i], e, m);
        }
        lemma_insert_canonical(s1, m1, e, k);
        assert(m1.insert(e.0, e.1) =~= m);
        assert(is_canonical(s1.insert(k, e), m));
    }
}

/// The entries of an ascending sequence rebuild the assignment.
pub proof fn lemma_map_of_canonical(s: Seq<Entry>, m: Map<char, Position>)
    requires
        is_canonical(s, m),
    ensures
        map_of(s) == m,
{
    let r = map_of(s);
    assert forall|c: char| r.contains_key(c) == m.contains_key(c) by {
        if r.contains_key(c) {
            let i = choose|i: int| 0 <= i < s.len() && (#[trigger] s[i]).0 == c;
            assert(m.contains_pair(s[i].0, s[i].1));
        }
    }
    assert forall|c: char| #[trigger] r.contains_key(c) implies r[c] == m[c] by {
        let i = choose|i: int| 0 <= i < s.len() && (#[trigger] s[i]).0 == c;
        assert(m.contains_pair(s[i].0, s[i].1));
    }
    assert(r =~= m);
}

/// Unpacking the packed text of an assignment gives the assignment back,
/// provided that every position fits in four bits a field.
pub proof fn lemma_unpack_pack(m: Map<char, Position>)
    requires
        m.dom().finite(),
        forall|c: char| #[trigger] m.contains_key(c) ==> pos::fits(m[c]),
    ensures
        unpack_spec(pack_spec(m)) == Some(m),
{
    lemma_canonical_exists(m);
    let es = canonical(m);
    lemma_decode_encode(es, m);
    lemma_map_of_canonical(es, m);
}

/// The text of an ascending sequence of entries whose positions fit is a
/// packed assignment, and spells those entries.
pub proof fn lemma_decode_encode(es: Seq<Entry>, m: Map<char, Position>)
    requires
        is_canonical(es, m),
        forall|c: char| #[trigger] m.contains_key(c) ==> pos::fits(m[c]),
    ensures
        is_packed(encode(es)),
        decode(encode(es)) == es,
{
    let s = encode(es);
    assert(s.len() == 4 * es.len());
    assert forall|i: int| 0 <= i < s.len() / 4 implies #[trigger] chunk_pos(s, i) == Some(
        es[i].1,
    ) by {
        assert(m.contains_pair(es[i].0, es[i].1));
        assert(m.contains_key(es[i].0));
        let sub = s.subrange(4 * i + 1, 4 * i + 4);
        let p = pos::pack_spec(es[i].1);
        assert(sub.len() == 3);
        assert(sub[0] == s[4 * i + 1] && sub[1] == s[4 * i + 2] && sub[2] == s[4 * i + 3]);
        assert((4 * i + 1) / 4 == i && (4 * i + 2) / 4 == i && (4 * i + 3) / 4 == i);
        assert(sub =~= p);
        pos::lemma_unpack_pack(es[i].1);
    }
    assert forall|i: int, j: int| 0 <= i < j < s.len() / 4 implies #[trigger] s[4 * i]
        != #[trigger] s[4 * j] by {
        assert((4 * i) / 4 == i && (4 * j) / 4 == j);
        assert(s[4 * i] == es[i].0 && s[4 * j] == es[j].0);
        assert(m.contains_pair(es[i].0, es[i].1));
        assert(m.contains_pair(es[j].0, es[j].1));
        lemma_key_decides(es[i], es[j], m);
        assert(sort_key(es[i]) < sort_key(es[j]));
    }
    assert(is_packed(s));
    assert forall|i: int| 0 <= i < es.len() implies #[trigger] decode(s)[i] == es[i] by {
        assert((4 * i) / 4 == i);
        assert(chunk_pos(s, i) == Some(es[i].1));
    }
    assert(decode(s) =~= es);
}

/// The sort key of an entry.
fn key_of(e: &Entry) -> (r: u64)
    ensures
        r == sort_key(*e),
{
    ((e.1.0 as u64) * 256 + (e.1.1 as u64)) * 0x1_0000_0000 + ((e.0 as u32) as u64)
}

/// The entries of a layout in ascending order.
pub fn sorted_entries(layout: &Layout) -> (r: Vec<Entry>)
    ensures
        is_canonical(r@, layout@),
        r@ == canonical(layout@),
{
    let v = layout.entries();
    let ghost m = layout@;
    let ghost mut sub = Map::<char, Position>::empty();
    let mut out: Vec<Entry> = Vec::new();
    let mut i: usize = 0;
    while i < v.len()
        invariant
            i <= v.len(),
            lists(v@, m),
            forall|a: int, b: int| 0 <= a < b < v@.len() ==> #[trigger] v@[a].0 != #[trigger] v@[b].0,
            is_canonical(out@, sub),
            forall|c: char| #[trigger] sub.contains_key(c) ==> m.contains_pair(c, sub[c]),
            forall|c: char| #[trigger]
                sub.contains_key(c) ==> exists|t: int| 0 <= t < i && (#[trigger] v@[t]).0 == c,
            forall|t: int| 0 <= t < i ==> sub.contains_key((#[trigger] v@[t]).0),
        decreases v.len() - i,
    {
        let e = v[i];
        let key = key_of(&e);
        let mut k: usize = 0;
        while k < out.len() && key_of(&out[k]) < key
            invariant
                k <= out.len(),
                key == sort_key(e),
                forall|j: int| 0 <= j < k ==> sort_key(#[trigger] out@[j]) < key,
            decreases out.len() - k,
        {
            k += 1;
        }
        proof {
            lemma_insert_step(out@, sub, m, v@, i as int, k as int);
            sub = sub.insert(e.0, e.1);
        }
        out.insert(k, e);
        i += 1;
    }
    proof {
        assert(sub =~= m) by {
            assert forall|c: char| m.contains_key(c) implies sub.contains_key(c) by {
                let t = choose|t: int| 0 <= t < v@.len() && (#[trigger] v@[t]).0 == c;
                assert(sub.contains_key(v@[t].0));
            }
        }
        lemma_canonical_exists_from(out@, m);
    }
    out
}

/// One step of sorting by insertion: the next entry of `v`, put into the
/// ascending sequence of those before it, gives the ascending sequence of
/// those up to it.
proof fn lemma_insert_step(
    out: Seq<Entry>,
    sub: Map<char, Position>,
    m: Map<char, Position>,
    v: Seq<Entry>,
    i: int,
    k: int,
)
    requires
        0 <= i < v.len(),
        0 <= k <= out.len(),
        lists(v, m),
        forall|a: int, b: int| 0 <= a < b < v.len() ==> #[trigger] v[a].0 != #[trigger] v[b].0,
        is_canonical(out, sub),
        forall|c: char| #[trigger] sub.contains_key(c) ==> m.contains_pair(c, sub[c]),
        forall|c: char| #[trigger]
            sub.contains_key(c) ==> exists|t: int| 0 <= t < i && (#[trigger] v[t]).0 == c,
        forall|t: int| 0 <= t < i ==> sub.contains_key((#[trigger] v[t]).0),
        forall|j: int| 0 <= j < k ==> sort_key(#[trigger] out[j]) < sort_key(v[i]),
        k < out.len() ==> sort_key(out[k]) >= sort_key(v[i]),
    ensures
        ({
            let e = v[i];
            let sub2 = sub.insert(e.0, e.1);
            &&& is_canonical(out.insert(k, e), sub2)
            &&& forall|c: char| #[trigger] sub2.contains_key(c) ==> m.contains_pair(c, sub2[c])
            &&& forall|c: char| #[trigger]
                sub2.contains_key(c) ==> exists|t: int| 0 <= t < i + 1 && (#[trigger] v[t]).0 == c
            &&& forall|t: int| 0 <= t < i + 1 ==> sub2.contains_key((#[trigger] v[t]).0)
        }),
{
    let e = v[i];
    let sub2 = sub.insert(e.0, e.1);
    assert(m.contains_pair(e.0, e.1));
    if sub.contains_key(e.0) {
        let t = choose|t: int| 0 <= t < i && (#[trigger] v[t]).0 == e.0;
        assert(v[t].0 != v[i].0);
    }
    assert forall|j: int| k <= j < out.len() implies sort_key(#[trigger] out[j]) > sort_key(e) by {
        assert(sub.contains_pair(out[j].0, out[j].1));
        assert(sub.contains_key(out[j].0));
        assert(m.contains_pair(out[j].0, out[j].1));
        lemma_key_decides(out[j], e, m);
        if j > k {
            assert(sort_key(out[k]) < sort_key(out[j]));
        }
    }
    lemma_insert_canonical(out, sub, e, k);
    assert forall|c: char| #[trigger] sub2.contains_key(c) implies exists|t: int|
        0 <= t < i + 1 && (#[trigger] v[t]).0 == c by {
        if c == e.0 {
            assert(v[i].0 == c);
        } else {
            assert(sub.contains_key(c));
            let t = choose|t: int| 0 <= t < i && (#[trigger] v[t]).0 == c;
            assert(0 <= t < i + 1 && v[t].0 == c);
        }
    }
    assert forall|t: int| 0 <= t < i + 1 implies sub2.contains_key((#[trigger] v[t]).0) by {
        if t < i {
            assert(sub.contains_key(v[t].0));
        }
    }
}

/// An ascending sequence of an assignment is its chosen one.
pub proof fn lemma_canonical_exists_from(s: Seq<Entry>, m: Map<char, Position>)
    requires
        is_canonical(s, m),
    ensures
        s == canonical(m),
{
    lemma_canonical_unique(s, canonical(m), m);
}

/// The packed text of a layout: its keys in ascending order of row, column
/// and code point, each as the key followed by the three digits of its
/// position.
pub fn pack(layout: &Layout) -> (r: String)
    ensures
        r@ == pack_spec(layout@),
{
    let es = sorted_entries(layout);
    let mut out: Vec<char> = Vec::new();
    let mut i: usize = 0;
    while i < es.len()
        invariant
            i <= es.len(),
            out@ == encode(es@.take(i as int)),
        decreases es.len() - i,
    {
        let e = es[i];
        let ghost before = out@;
        out.push(e.0);
        out.push(pos::digit(e.1.0 as u16));
        out.push(pos::digit(e.1.1 as u16));
        out.push(pos::digit(e.1.2));
        proof {
            let a = es@.take(i as int);
            let b = es@.take(i + 1);
            let want = encode(b);
            assert(out@.len() == want.len());
            assert forall|k: int| 0 <= k < want.len() implies out@[k] == want[k] by {
                if k < 4 * i {
                    assert(out@[k] == before[k]);
                    assert(a[k / 4] == b[k / 4]);
                } else {
                    assert(k / 4 == i);
                    assert(b[i as int] == e);
                }
            }
            assert(out@ =~= want);
        }
        i += 1;
    }
    assert(es@.take(es@.len() as int) =~= es@);
    string_of(&out)
}

/// The layout that a packed text spells, or `None` where the text is not a
/// packed assignment.
pub fn try_unpack(layout_packed: &str) -> (r: Option<Layout>)
    ensures
        match r {
            Some(layout) => unpack_spec(layout_packed@) == Some(layout@),
            None => unpack_spec(layout_packed@) is None,
        },
{
    let chars = chars_of(layout_packed);
    let ghost s = chars@;
    if chars.len() % 4 != 0 {
        return None;
    }
    let n = chars.len() / 4;
    let mut layout = Layout::new();
    let mut i: usize = 0;
    while i < n
        invariant
            i <= n,
            s == chars@,
            s == layout_packed@,
            n == s.len() / 4,
            s.len() % 4 == 0,
            forall|j: int| 0 <= j < i ==> (#[trigger] chunk_pos(s, j)) is Some,
            forall|j: int, k: int| 0 <= j < k < i ==> #[trigger] s[4 * j] != #[trigger] s[4 * k],
            forall|c: char| #[trigger]
                layout@.contains_key(c) <==> exists|j: int| 0 <= j < i && #[trigger] s[4 * j] == c,
            forall|j: int| 0 <= j < i ==> layout@[#[trigger] s[4 * j]] == chunk_pos(s, j).unwrap(),
        decreases n - i,
    {
        let key = chars[4 * i];
        assert(s.subrange(4 * i + 1, 4 * i + 4) =~= seq![s[4 * i + 1], s[4 * i + 2], s[4 * i + 3]]);
        let p = match pos::parse(chars[4 * i + 1], chars[4 * i + 2], chars[4 * i + 3]) {
            Some(p) => p,
            None => {
                assert(chunk_pos(s, i as int) is None);
                return None;
            },
        };
        if layout.contains_key(key) {
            proof {
                let j = choose|j: int| 0 <= j < i && #[trigger] s[4 * j] == key;
                assert(s[4 * j] == s[4 * i]);
            }
            return None;
        }
        let ghost before = layout@;
        layout.insert(key, p);
        proof {
            assert forall|c: char| #[trigger]
                layout@.contains_key(c) <==> exists|j: int| 0 <= j < i + 1 && #[trigger] s[4 * j] == c by {
                if layout@.contains_key(c) {
                    if c == key {
                        assert(s[4 * i] == c);
                    } else {
                        assert(before.contains_key(c));
                        let j = choose|j: int| 0 <= j < i && #[trigger] s[4 * j] == c;
                        assert(0 <= j < i + 1 && s[4 * j] == c);
                    }
                }
                if exists|j: int| 0 <= j < i + 1 && #[trigger] s[4 * j] == c {
                    let j = choose|j: int| 0 <= j < i + 1 && #[trigger] s[4 * j] == c;
                    if j < i {
                        assert(before.contains_key(c));
                    }
                }
            }
            assert forall|j: int, k: int| 0 <= j < k < i + 1 implies #[trigger] s[4 * j]
                != #[trigger] s[4 * k] by {
                if k == i {
                    if s[4 * j] == key {
                        assert(before.contains_key(key));
                    }
                }
            }
            assert forall|j: int| 0 <= j < i + 1 implies layout@[#[trigger] s[4 * j]] == chunk_pos(
                s,
                j,
            ).unwrap() by {
                if j < i {
                    assert(before.contains_key(s[4 * j]));
                    assert(s[4 * j] != key);
                }
            }
        }
        i += 1;
    }
    proof {
        assert(is_packed(s));
        let es = decode(s);
        let r = map_of(es);
        assert forall|c: char| r.contains_key(c) == layout@.contains_key(c) by {
            if r.contains_key(c) {
                let j = choose|j: int| 0 <= j < es.len() && (#[trigger] es[j]).0 == c;
                assert(s[4 * j] == c);
            }
            if layout@.contains_key(c) {
                let j = choose|j: int| 0 <= j < i && #[trigger] s[4 * j] == c;
                assert(es[j].0 == c);
            }
        }
        assert forall|c: char| #[trigger] r.contains_key(c) implies r[c] == layout@[c] by {
            let j = choose|j: int| 0 <= j < es.len() && (#[trigger] es[j]).0 == c;
            assert(s[4 * j] == c);
            assert(layout@[s[4 * j]] == chunk_pos(s, j).unwrap());
        }
        assert(r =~= layout@);
    }
    Some(layout)
}

/// The layout that a packed text spells. The text must be a packed
/// assignment; `try_unpack` tells whether it is.
pub fn unpack(layout_packed: &str) -> (r: Layout)
    requires
        unpack_spec(layout_packed@) is Some,
    ensures
        unpack_spec(layout_packed@) == Some(r@),
{
    match try_unpack(layout_packed) {
        Some(layout) => layout,
        None => vstd::pervasive::unreached(),
    }
}

} // verus!
