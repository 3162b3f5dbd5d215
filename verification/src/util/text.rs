//! Conversions between strings and character vectors, and the few facts about
//! std's text functions that the rest of the library builds on.

use vstd::prelude::*;

verus! {

/// What `char::is_whitespace` answers: whether Unicode counts the character
/// as white space.
pub uninterp spec fn white_space(c: char) -> bool;

/// What `str::to_lowercase` returns: the Unicode lowercase mapping of a text.
pub uninterp spec fn lowercase(s: Seq<char>) -> Seq<char>;

/// `String::push` appends the character to the end of the string.
pub assume_specification[ String::push ](s: &mut String, c: char)
    ensures
        final(s)@ == old(s)@.push(c),
;

/// `char::is_whitespace` is a fixed predicate on characters.
pub assume_specification[ char::is_whitespace ](c: char) -> (r: bool)
    ensures
        r == white_space(c),
;

/// `str::to_lowercase` is a fixed function of the text.
pub assume_specification[ str::to_lowercase ](s: &str) -> (r: String)
    ensures
        r@ == lowercase(s@),
;

/// The characters of `s`, in order.
pub fn chars_of(s: &str) -> (r: Vec<char>)
    ensures
        r@ == s@,
{
    let mut out: Vec<char> = Vec::new();
    for c in it: s.chars()
        invariant
            it.seq() == s@,
            out@ =~= s@.take(it.index()),
    {
        out.push(c);
    }
    assert(s@.take(s@.len() as int) =~= s@);
    out
}

/// The string made of the characters of `v`, in order.
pub fn string_of(v: &Vec<char>) -> (r: String)
    ensures
        r@ == v@,
{
    let mut out = String::new();
    let mut i: usize = 0;
    while i < v.len()
        invariant
            i <= v.len(),
            out@ =~= v@.take(i as int),
        decreases v.len() - i,
    {
        out.push(v[i]);
        i += 1;
    }
    assert(v@.take(v@.len() as int) =~= v@);
    out
}

/// Whether two character vectors hold the same text.
pub fn chars_eq(a: &Vec<char>, b: &Vec<char>) -> (r: bool)
    ensures
        r == (a@ == b@),
{
    if a.len() != b.len() {
        return false;
    }
    let mut i: usize = 0;
    while i < a.len()
        invariant
            i <= a.len(),
            a.len() == b.len(),
            a@.take(i as int) =~= b@.take(i as int),
        decreases a.len() - i,
    {
        if a[i] != b[i] {
            return false;
        }
        assert(a@.take(i + 1) =~= a@.take(i as int).push(a@[i as int]));
        assert(b@.take(i + 1) =~= b@.take(i as int).push(b@[i as int]));
        i += 1;
    }
    assert(a@.take(a@.len() as int) =~= a@);
    assert(b@.take(b@.len() as int) =~= b@);
    true
}

/// Whether two strings hold the same text.
pub fn str_eq(a: &str, b: &str) -> (r: bool)
    ensures
        r == (a@ == b@),
{
    let x = a.to_owned();
    let y = b.to_owned();
    x == y
}

/// A string that holds the text.
pub fn str_owned(s: &str) -> (r: String)
    ensures
        r@ == s@,
{
    s.to_owned()
}

/// The text in lowercase.
pub fn str_lower(s: &str) -> (r: String)
    ensures
        r@ == lowercase(s@),
{
    s.to_lowercase()
}

/// The texts that the vectors hold.
pub open spec fn views(rows: Seq<Vec<char>>) -> Seq<Seq<char>> {
    Seq::new(rows.len(), |i: int| rows[i]@)
}

/// Where the first line of a text ends: the index of its first line feed, or
/// its length where it has none.
pub open spec fn line_end(s: Seq<char>) -> int
    decreases s.len(),
{
    if s.len() == 0 || s[0] == '\n' {
        0
    } else {
        1 + line_end(s.drop_first())
    }
}

/// A line without the carriage return that ends it, if one does.
pub open spec fn strip_cr(s: Seq<char>) -> Seq<char> {
    if s.len() > 0 && s.last() == '\r' {
        s.drop_last()
    } else {
        s
    }
}

/// The lines of a text. A line ends at a line feed, or at a carriage return
/// followed by one; the last line need not end at all, and a text that ends
/// in a line feed has no empty line after it.
pub open spec fn lines_of(s: Seq<char>) -> Seq<Seq<char>>
    decreases s.len(),
{
    if s.len() == 0 {
        Seq::empty()
    } else {
        let k = line_end(s);
        if k < 0 || k >= s.len() {
            seq![s]
        } else {
            seq![strip_cr(s.take(k))] + lines_of(s.skip(k + 1))
        }
    }
}

/// How many whitespace characters a line begins with.
pub open spec fn leading_whitespace(s: Seq<char>) -> int
    decreases s.len(),
{
    if s.len() > 0 && white_space(s[0]) {
        1 + leading_whitespace(s.drop_first())
    } else {
        0
    }
}

/// The decimal digits of a number.
pub open spec fn decimal_of(n: nat) -> Seq<char>
    decreases n,
{
    if n < 10 {
        seq![(n + 48) as char]
    } else {
        decimal_of(n / 10).push((n % 10 + 48) as char)
    }
}

/// The first line ends where the first line feed stands.
pub proof fn lemma_line_end(s: Seq<char>, m: int)
    requires
        0 <= m <= s.len(),
        forall|j: int| 0 <= j < m ==> s[j] != '\n',
        m == s.len() || s[m] == '\n',
    ensures
        line_end(s) == m,
    decreases m,
{
    if m > 0 {
        let t = s.drop_first();
        assert forall|j: int| 0 <= j < m - 1 implies t[j] != '\n' by {
            assert(t[j] == s[j + 1]);
        }
        lemma_line_end(t, m - 1);
    }
}

/// The leading whitespace ends at the first character that is none.
pub proof fn lemma_leading_whitespace(s: Seq<char>, m: int)
    requires
        0 <= m <= s.len(),
        forall|j: int| 0 <= j < m ==> white_space(s[j]),
        m == s.len() || !white_space(s[m]),
    ensures
        leading_whitespace(s) == m,
    decreases m,
{
    if m > 0 {
        let t = s.drop_first();
        assert forall|j: int| 0 <= j < m - 1 implies white_space(t[j]) by {
            assert(t[j] == s[j + 1]);
        }
        lemma_leading_whitespace(t, m - 1);
    }
}

/// As many characters as a text begins with whitespace are whitespace, and
/// the one after them, if any, is none.
pub proof fn lemma_leading_whitespace_is(s: Seq<char>, m: int)
    requires
        m == leading_whitespace(s),
    ensures
        0 <= m <= s.len(),
        forall|j: int| 0 <= j < m ==> white_space(s[j]),
        m == s.len() || !white_space(s[m]),
    decreases s.len(),
{
    if s.len() > 0 && white_space(s[0]) {
        let t = s.drop_first();
        lemma_leading_whitespace_is(t, m - 1);
        assert forall|j: int| 0 <= j < m implies white_space(s[j]) by {
            if j > 0 {
                assert(t[j - 1] == s[j]);
            }
        }
        if m < s.len() {
            assert(t[m - 1] == s[m]);
        }
    }
}

/// The lines of a text.
pub fn split_lines(chars: &Vec<char>) -> (r: Vec<Vec<char>>)
    ensures
        views(r@) == lines_of(chars@),
{
    let n = chars.len();
    let ghost s = chars@;
    let mut rows: Vec<Vec<char>> = Vec::new();
    let mut a: usize = 0;
    assert(s.skip(0) =~= s);
    assert(views(rows@) + lines_of(s.skip(0)) =~= lines_of(s));
    while a < n
        invariant
            a <= n,
            n == chars.len(),
            s == chars@,
            lines_of(s) == views(rows@) + lines_of(s.skip(a as int)),
        decreases n - a,
    {
        let mut b: usize = a;
        while b < n && chars[b] != '\n'
            invariant
                a <= b <= n,
                n == chars.len(),
                s == chars@,
                forall|j: int| a <= j < b ==> s[j] != '\n',
            decreases n - b,
        {
            b += 1;
        }
        let ghost rest = s.skip(a as int);
        let ghost before = rows@;
        proof {
            assert forall|j: int| 0 <= j < b - a implies rest[j] != '\n' by {
                assert(rest[j] == s[a + j]);
            }
            lemma_line_end(rest, b - a);
        }
        if b == n {
            let line = vstd::slice::slice_to_vec(
                vstd::slice::slice_subrange(chars.as_slice(), a, n),
            );
            assert(line@ =~= rest);
            rows.push(line);
            proof {
                assert(lines_of(rest) =~= seq![rest]);
                assert(views(rows@) =~= views(before) + seq![rest]);
                assert(lines_of(s.skip(n as int)) =~= Seq::<Seq<char>>::empty());
            }
            a = n;
        } else {
            let end = if b > a && chars[b - 1] == '\r' {
                b - 1
            } else {
                b
            };
            let line = vstd::slice::slice_to_vec(
                vstd::slice::slice_subrange(chars.as_slice(), a, end),
            );
            rows.push(line);
            proof {
                let k = b - a;
                assert(rest.take(k) =~= s.subrange(a as int, b as int));
                assert(line@ =~= strip_cr(rest.take(k)));
                assert(rest.skip(k + 1) =~= s.skip(b + 1));
                assert(views(rows@) =~= views(before) + seq![line@]);
                assert(lines_of(rest) == seq![line@] + lines_of(s.skip(b + 1)));
            }
            a = b + 1;
        }
    }
    proof {
        assert(s.skip(n as int) =~= Seq::<char>::empty());
        assert(views(rows@) + lines_of(s.skip(n as int)) =~= views(rows@));
    }
    rows
}

/// How many whitespace characters a line begins with.
pub fn count_leading_whitespace(line: &Vec<char>) -> (r: usize)
    ensures
        r == leading_whitespace(line@),
        r <= line@.len(),
{
    let mut k: usize = 0;
    while k < line.len() && line[k].is_whitespace()
        invariant
            k <= line.len(),
            forall|j: int| 0 <= j < k ==> white_space(line@[j]),
        decreases line.len() - k,
    {
        k += 1;
    }
    proof {
        lemma_leading_whitespace(line@, k as int);
    }
    k
}

/// The decimal digits of a number.
pub fn decimal(n: usize) -> (r: Vec<char>)
    ensures
        r@ == decimal_of(n as nat),
    decreases n,
{
    let mut digits: Vec<char> = Vec::new();
    if n >= 10 {
        digits = decimal(n / 10);
    }
    let d: u8 = (n % 10) as u8;
    digits.push((d + 48) as char);
    digits
}

/// The decimal digits of a 64-bit number.
pub fn decimal_u64(n: u64) -> (r: Vec<char>)
    ensures
        r@ == decimal_of(n as nat),
    decreases n,
{
    let mut digits: Vec<char> = Vec::new();
    if n >= 10 {
        digits = decimal_u64(n / 10);
    }
    let d: u8 = (n % 10) as u8;
    digits.push((d + 48) as char);
    digits
}

/// Appends the characters of `tail` to `out`.
pub fn push_all(out: &mut Vec<char>, tail: &Vec<char>)
    ensures
        final(out)@ == old(out)@ + tail@,
{
    let mut i: usize = 0;
    while i < tail.len()
        invariant
            i <= tail.len(),
            out@ == old(out)@ + tail@.take(i as int),
        decreases tail.len() - i,
    {
        out.push(tail[i]);
        assert(tail@.take(i + 1) =~= tail@.take(i as int).push(tail@[i as int]));
        assert(out@ =~= old(out)@ + tail@.take(i + 1));
        i += 1;
    }
    assert(tail@.take(tail@.len() as int) =~= tail@);
}

/// Appends the characters of the text `tail` to `out`.
pub fn push_str(out: &mut Vec<char>, tail: &str)
    ensures
        final(out)@ == old(out)@ + tail@,
{
    let chars = chars_of(tail);
    push_all(out, &chars);
}

/// Whether a text stands before another, or is the same: the order of the
/// code points of the first character in which they differ; a text stands
/// before every text that it begins.
pub open spec fn lex_le(a: Seq<char>, b: Seq<char>) -> bool
    decreases a.len(),
{
    if a.len() == 0 {
        true
    } else if b.len() == 0 {
        false
    } else if a[0] != b[0] {
        a[0] < b[0]
    } else {
        lex_le(a.drop_first(), b.drop_first())
    }
}

/// Whether the texts stand in ascending order.
pub open spec fn is_ascending(s: Seq<Seq<char>>) -> bool {
    forall|i: int, j: int| 0 <= i < j < s.len() ==> lex_le(#[trigger] s[i], #[trigger] s[j])
}

/// Of two texts one stands before the other, or they are the same.
pub proof fn lemma_lex_total(a: Seq<char>, b: Seq<char>)
    ensures
        lex_le(a, b) || lex_le(b, a),
    decreases a.len(),
{
    if a.len() > 0 && b.len() > 0 && a[0] == b[0] {
        lemma_lex_total(a.drop_first(), b.drop_first());
    }
}

/// What stands before a text that stands before a third stands before the
/// third.
pub proof fn lemma_lex_transitive(a: Seq<char>, b: Seq<char>, c: Seq<char>)
    requires
        lex_le(a, b),
        lex_le(b, c),
    ensures
        lex_le(a, c),
    decreases a.len(),
{
    if a.len() > 0 && b.len() > 0 && c.len() > 0 && a[0] == b[0] && b[0] == c[0] {
        lemma_lex_transitive(a.drop_first(), b.drop_first(), c.drop_first());
    }
}

/// Whether a text stands before another, or is the same.
pub fn text_le(a: &Vec<char>, b: &Vec<char>) -> (r: bool)
    ensures
        r == lex_le(a@, b@),
{
    let mut i: usize = 0;
    assert(a@.skip(0) =~= a@ && b@.skip(0) =~= b@);
    loop
        invariant
            i <= a.len(),
            i <= b.len(),
            lex_le(a@, b@) == lex_le(a@.skip(i as int), b@.skip(i as int)),
        decreases a.len() - i,
    {
        if i == a.len() {
            return true;
        }
        if i == b.len() {
            return false;
        }
        if a[i] != b[i] {
            return a[i] < b[i];
        }
        proof {
            assert(a@.skip(i as int).drop_first() =~= a@.skip(i + 1));
            assert(b@.skip(i as int).drop_first() =~= b@.skip(i + 1));
        }
        i += 1;
    }
}

/// The texts in ascending order.
pub fn sort_texts(v: &Vec<Vec<char>>) -> (r: Vec<Vec<char>>)
    ensures
        is_ascending(views(r@)),
        views(r@).to_multiset() == views(v@).to_multiset(),
{
    let mut out: Vec<Vec<char>> = Vec::new();
    let mut i: usize = 0;
    assert(views(out@) =~= views(v@).take(0));
    while i < v.len()
        invariant
            i <= v.len(),
            is_ascending(views(out@)),
            views(out@).to_multiset() == views(v@).take(i as int).to_multiset(),
        decreases v.len() - i,
    {
        let x = v[i].clone();
        assert(x@ == v@[i as int]@);
        let mut k: usize = 0;
        while k < out.len() && text_le(&out[k], &x)
            invariant
                k <= out.len(),
                forall|j: int| 0 <= j < k ==> lex_le(#[trigger] views(out@)[j], x@),
            decreases out.len() - k,
        {
            assert(views(out@)[k as int] == out@[k as int]@);
            k += 1;
        }
        let ghost before = views(out@);
        proof {
            if k < out.len() {
                assert(before[k as int] == out@[k as int]@);
                lemma_lex_total(before[k as int], x@);
                assert forall|j: int| k <= j < before.len() implies lex_le(x@, #[trigger] before[j]) by {
                    if j > k {
                        lemma_lex_transitive(x@, before[k as int], before[j]);
                    }
                }
            }
        }
        out.insert(k, x);
        proof {
            let after = views(out@);
            assert(after =~= before.insert(k as int, x@));
            assert forall|a: int, b: int| 0 <= a < b < after.len() implies lex_le(
                #[trigger] after[a],
                #[trigger] after[b],
            ) by {
                let p = if a < k { before[a] } else if a == k { x@ } else { before[a - 1] };
                let q = if b < k { before[b] } else if b == k { x@ } else { before[b - 1] };
                assert(after[a] == p && after[b] == q);
                if a < k && b > k {
                    lemma_lex_transitive(before[a], x@, before[b - 1]);
                }
            }
            assert(views(v@).take(i + 1) =~= views(v@).take(i as int).push(x@));
            vstd::seq_lib::to_multiset_insert(before, k as int, x@);
            vstd::seq_lib::to_multiset_build(views(v@).take(i as int), x@);
        }
        i += 1;
    }
    assert(views(v@).take(v@.len() as int) =~= views(v@));
    out
}

/// The number that a text of decimal digits spells, or `None` where the
/// text is empty, holds another character, or spells more than a 64-bit
/// number holds.
pub open spec fn number_of(s: Seq<char>) -> Option<u64>
    decreases s.len(),
{
    if s.len() == 0 {
        None
    } else if !('0' <= s.last() <= '9') {
        None
    } else if s.len() == 1 {
        Some((s.last() as u32 - 48) as u64)
    } else {
        match number_of(s.drop_last()) {
            Some(head) => if head * 10 + (s.last() as u32 - 48) <= u64::MAX {
                Some((head * 10 + (s.last() as u32 - 48)) as u64)
            } else {
                None
            },
            None => None,
        }
    }
}

/// The number that a text spells: decimal digits, with or without a plus
/// sign before them.
pub open spec fn unsigned_of(s: Seq<char>) -> Option<u64> {
    if s.len() > 0 && s[0] == '+' {
        number_of(s.skip(1))
    } else {
        number_of(s)
    }
}

/// The number that a text spells: decimal digits, with or without a plus
/// sign before them.
pub fn parse_number(s: &str) -> (r: Option<u64>)
    ensures
        r == unsigned_of(s@),
{
    let all = chars_of(s);
    let from: usize = if all.len() > 0 && all[0] == '+' {
        1
    } else {
        0
    };
    let chars = vstd::slice::slice_to_vec(vstd::slice::slice_subrange(all.as_slice(), from, all.len()));
    assert(chars@ =~= s@.skip(from as int));
    assert(s@.skip(0) =~= s@);
    let ghost digits = chars@;
    if chars.len() == 0 {
        return None;
    }
    let mut value: u64 = 0;
    let mut i: usize = 0;
    while i < chars.len()
        invariant
            i <= chars.len(),
            chars@.len() > 0,
            digits == chars@,
            unsigned_of(s@) == number_of(digits),
            i > 0 ==> number_of(chars@.take(i as int)) == Some(value),
            i == 0 ==> value == 0,
        decreases chars.len() - i,
    {
        let c = chars[i];
        proof {
            assert(chars@.take(i + 1).drop_last() =~= chars@.take(i as int));
            assert(chars@.take(i + 1).last() == c);
        }
        if !('0' <= c && c <= '9') {
            proof {
                lemma_number_prefix(chars@, i + 1);
            }
            return None;
        }
        let digit: u64 = (c as u32 - 48) as u64;
        let next = match value.checked_mul(10) {
            Some(tens) => tens.checked_add(digit),
            None => None,
        };
        match next {
            Some(next) => {
                value = next;
            },
            None => {
                proof {
                    lemma_number_prefix(chars@, i + 1);
                }
                return None;
            },
        }
        i += 1;
    }
    assert(chars@.take(chars@.len() as int) =~= chars@);
    Some(value)
}

/// A text whose beginning spells no number spells none.
pub proof fn lemma_number_prefix(s: Seq<char>, n: int)
    requires
        0 < n <= s.len(),
        number_of(s.take(n)) is None,
    ensures
        number_of(s) is None,
    decreases s.len() - n,
{
    if n < s.len() {
        assert(s.take(n + 1).drop_last() =~= s.take(n));
        lemma_number_prefix(s, n + 1);
    } else {
        assert(s.take(n) =~= s);
    }
}

} // verus!
