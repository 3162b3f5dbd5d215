//! What a command's argument text is taken apart into: words, a layout
//! submission, and keyword arguments.

use vstd::prelude::*;
use crate::util::names::{lemma_insert_lookup, NameMap};
use crate::util::text::{
    chars_of, white_space, lowercase, push_all, str_lower, string_of, views,
};

verus! {

/// Where the first word of a text ends: the index of its first whitespace
/// character, or its length where it has none.
pub open spec fn word_end(s: Seq<char>) -> int
    decreases s.len(),
{
    if s.len() == 0 || white_space(s[0]) {
        0
    } else {
        1 + word_end(s.drop_first())
    }
}

/// The words of a text: its longest runs of characters that are not
/// whitespace.
pub open spec fn words_of(s: Seq<char>) -> Seq<Seq<char>>
    decreases s.len(),
{
    if s.len() == 0 {
        Seq::empty()
    } else if white_space(s[0]) {
        words_of(s.drop_first())
    } else {
        let k = word_end(s);
        if k <= 0 || k > s.len() {
            seq![s]
        } else {
            seq![s.take(k)] + words_of(s.skip(k))
        }
    }
}

/// How many whitespace characters a text ends with.
pub open spec fn trailing_whitespace(s: Seq<char>) -> int
    decreases s.len(),
{
    if s.len() > 0 && white_space(s.last()) {
        1 + trailing_whitespace(s.drop_last())
    } else {
        0
    }
}

/// How many whitespace characters a text begins with.
pub open spec fn leading(s: Seq<char>) -> int {
    crate::util::text::leading_whitespace(s)
}

/// The text without the whitespace at its start and at its end.
pub open spec fn trim_spec(s: Seq<char>) -> Seq<char> {
    let a = leading(s);
    if a >= s.len() {
        Seq::empty()
    } else {
        s.subrange(a, s.len() - trailing_whitespace(s))
    }
}

/// Whether three backticks stand at an index of the text.
pub open spec fn is_fence_at(s: Seq<char>, i: int) -> bool {
    0 <= i && i + 3 <= s.len() && s[i] == '`' && s[i + 1] == '`' && s[i + 2] == '`'
}

/// The first index from `i` on at which three backticks stand, or the
/// length of the text where they stand nowhere.
pub open spec fn fence_from(s: Seq<char>, i: int) -> int
    decreases s.len() - i,
{
    if i >= s.len() {
        s.len() as int
    } else if is_fence_at(s, i) {
        i
    } else {
        fence_from(s, i + 1)
    }
}

/// The name and the matrix of a layout submission: what stands before the
/// first three backticks, and what stands between them and the next three
/// (or the end); each without the whitespace around it, and in lowercase.
pub open spec fn layout_parts(s: Seq<char>) -> (Seq<char>, Seq<char>) {
    let k0 = fence_from(s, 0);
    let matrix = if k0 >= s.len() {
        Seq::<char>::empty()
    } else {
        s.subrange(k0 + 3, fence_from(s, k0 + 3))
    };
    (lowercase(trim_spec(s.take(k0))), lowercase(trim_spec(matrix)))
}

/// The first word ends where the first whitespace character stands.
pub proof fn lemma_word_end(s: Seq<char>, m: int)
    requires
        0 <= m <= s.len(),
        forall|j: int| 0 <= j < m ==> !white_space(s[j]),
        m == s.len() || white_space(s[m]),
    ensures
        word_end(s) == m,
    decreases m,
{
    if m > 0 {
        let t = s.drop_first();
        assert forall|j: int| 0 <= j < m - 1 implies !white_space(t[j]) by {
            assert(t[j] == s[j + 1]);
        }
        lemma_word_end(t, m - 1);
    }
}

/// The trailing whitespace begins after the last character that is none.
pub proof fn lemma_trailing_whitespace(s: Seq<char>, m: int)
    requires
        0 <= m <= s.len(),
        forall|j: int| s.len() - m <= j < s.len() ==> white_space(s[j]),
        m == s.len() || !white_space(s[s.len() - m - 1]),
    ensures
        trailing_whitespace(s) == m,
    decreases m,
{
    if m > 0 {
        let t = s.drop_last();
        assert forall|j: int| t.len() - (m - 1) <= j < t.len() implies white_space(t[j]) by {
            assert(t[j] == s[j]);
        }
        lemma_trailing_whitespace(t, m - 1);
    }
}

/// The first fence from an index on is the first index at which one stands.
pub proof fn lemma_fence_from(s: Seq<char>, i: int, m: int)
    requires
        0 <= i <= m <= s.len(),
        forall|j: int| i <= j < m ==> !is_fence_at(s, j),
        m == s.len() || is_fence_at(s, m),
    ensures
        fence_from(s, i) == m,
    decreases m - i,
{
    if i < m {
        lemma_fence_from(s, i + 1, m);
    }
}

/// The words of a text.
pub fn split_words(chars: &Vec<char>) -> (r: Vec<Vec<char>>)
    ensures
        views(r@) == words_of(chars@),
        forall|i: int| 0 <= i < r@.len() ==> (#[trigger] r@[i])@.len() > 0,
{
    let n = chars.len();
    let ghost s = chars@;
    let mut words: Vec<Vec<char>> = Vec::new();
    let mut a: usize = 0;
    assert(s.skip(0) =~= s);
    assert(views(words@) + words_of(s.skip(0)) =~= words_of(s));
    while a < n
        invariant
            a <= n,
            n == chars.len(),
            s == chars@,
            words_of(s) == views(words@) + words_of(s.skip(a as int)),
            forall|i: int| 0 <= i < words@.len() ==> (#[trigger] words@[i])@.len() > 0,
        decreases n - a,
    {
        let ghost rest = s.skip(a as int);
        if chars[a].is_whitespace() {
            proof {
                assert(rest.drop_first() =~= s.skip(a + 1));
            }
            a += 1;
        } else {
            let mut b: usize = a + 1;
            while b < n && !chars[b].is_whitespace()
                invariant
                    a < b <= n,
                    n == chars.len(),
                    s == chars@,
                    forall|j: int| a <= j < b ==> !white_space(s[j]),
                decreases n - b,
            {
                b += 1;
            }
            let ghost before = words@;
            let word = vstd::slice::slice_to_vec(
                vstd::slice::slice_subrange(chars.as_slice(), a, b),
            );
            words.push(word);
            proof {
                let k = b - a;
                assert forall|j: int| 0 <= j < k implies !white_space(rest[j]) by {
                    assert(rest[j] == s[a + j]);
                }
                lemma_word_end(rest, k);
                assert(word@ =~= rest.take(k));
                assert(rest.skip(k) =~= s.skip(b as int));
                assert(views(words@) =~= views(before) + seq![word@]);
                if k == rest.len() {
                    assert(rest.take(k) =~= rest);
                    assert(words_of(s.skip(b as int)) =~= Seq::<Seq<char>>::empty());
                    assert(words_of(rest) =~= seq![word@] + words_of(s.skip(b as int)));
                }
            }
            a = b;
        }
    }
    proof {
        assert(s.skip(n as int) =~= Seq::<char>::empty());
        assert(views(words@) + words_of(s.skip(n as int)) =~= views(words@));
    }
    words
}

/// The text without the whitespace at its start and at its end.
pub fn trim(chars: &Vec<char>) -> (r: Vec<char>)
    ensures
        r@ == trim_spec(chars@),
{
    let n = chars.len();
    let a = crate::util::text::count_leading_whitespace(chars);
    if a >= n {
        return Vec::new();
    }
    let mut b: usize = n;
    while b > 0 && chars[b - 1].is_whitespace()
        invariant
            b <= n,
            n == chars.len(),
            forall|j: int| b <= j < n ==> white_space(chars@[j]),
        decreases b,
    {
        b -= 1;
    }
    proof {
        lemma_trailing_whitespace(chars@, n - b);
        crate::util::text::lemma_leading_whitespace_is(chars@, a as int);
    }
    vstd::slice::slice_to_vec(vstd::slice::slice_subrange(chars.as_slice(), a, b))
}

/// The first index from `from` on at which three backticks stand.
pub fn find_fence(chars: &Vec<char>, from: usize) -> (r: usize)
    requires
        from <= chars@.len(),
    ensures
        r == fence_from(chars@, from as int),
        from <= r <= chars@.len(),
        r < chars@.len() ==> r + 3 <= chars@.len(),
{
    let n = chars.len();
    let mut i: usize = from;
    while i < n
        invariant
            from <= i <= n,
            n == chars.len(),
            forall|j: int| from <= j < i ==> !is_fence_at(chars@, j),
        decreases n - i,
    {
        if n - i >= 3 && chars[i] == '`' && chars[i + 1] == '`' && chars[i + 2] == '`' {
            proof {
                lemma_fence_from(chars@, from as int, i as int);
            }
            return i;
        }
        i += 1;
    }
    proof {
        lemma_fence_from(chars@, from as int, n as int);
    }
    n
}

/// The words of a text.
pub fn get_args(s: &str) -> (r: Vec<String>)
    ensures
        r@.len() == words_of(s@).len(),
        forall|i: int| 0 <= i < r@.len() ==> (#[trigger] r@[i])@ == words_of(s@)[i],
{
    let chars = chars_of(s);
    let words = split_words(&chars);
    let mut out: Vec<String> = Vec::new();
    let mut i: usize = 0;
    while i < words.len()
        invariant
            i <= words.len(),
            views(words@) == words_of(s@),
            out@.len() == i,
            forall|j: int| 0 <= j < i ==> (#[trigger] out@[j])@ == words_of(s@)[j],
        decreases words.len() - i,
    {
        assert(views(words@)[i as int] == words@[i as int]@);
        out.push(string_of(&words[i]));
        i += 1;
    }
    out
}

/// The name and the matrix of a layout submission.
pub fn get_layout(s: &str) -> (r: (String, String))
    ensures
        r.0@ == layout_parts(s@).0,
        r.1@ == layout_parts(s@).1,
{
    let chars = chars_of(s);
    let n = chars.len();
    let k0 = find_fence(&chars, 0);
    let head = vstd::slice::slice_to_vec(vstd::slice::slice_subrange(chars.as_slice(), 0, k0));
    assert(head@ =~= chars@.take(k0 as int));
    let body = if k0 >= n {
        Vec::new()
    } else {
        let k1 = find_fence(&chars, k0 + 3);
        vstd::slice::slice_to_vec(vstd::slice::slice_subrange(chars.as_slice(), k0 + 3, k1))
    };
    let name = str_lower(string_of(&trim(&head)).as_str());
    let matrix = str_lower(string_of(&trim(&body)).as_str());
    (name, matrix)
}

/// Why keyword arguments were not read.
#[derive(Debug)]
pub enum ParseKwargError {
    /// A word has the form of a keyword, and the command has no such keyword.
    Invalid(String),
}

/// What a keyword takes.
#[derive(Debug, PartialEq, Eq, Copy, Clone, Structural)]
pub enum KwargType {
    /// Nothing: the keyword is there or not.
    Bool,
    /// The words that follow it, up to the next keyword.
    Vec,
    /// The words that follow it, up to the next keyword, as one text.
    Str,
}

/// What a keyword was given.
#[derive(Debug)]
pub enum Kwarg {
    Bool(bool),
    Vec(Option<Vec<String>>),
    Str(Option<String>),
}

/// What a keyword was given, as plain texts.
pub enum KwargView {
    Bool(bool),
    Vec(Option<Seq<Seq<char>>>),
    Str(Option<Seq<char>>),
}

/// The texts that the strings hold.
pub open spec fn texts(v: Seq<String>) -> Seq<Seq<char>> {
    Seq::new(v.len(), |i: int| v[i]@)
}

impl View for Kwarg {
    type V = KwargView;

    open spec fn view(&self) -> KwargView {
        match self {
            Kwarg::Bool(b) => KwargView::Bool(*b),
            Kwarg::Vec(None) => KwargView::Vec(None),
            Kwarg::Vec(Some(v)) => KwargView::Vec(Some(texts(v@))),
            Kwarg::Str(None) => KwargView::Str(None),
            Kwarg::Str(Some(s)) => KwargView::Str(Some(s@)),
        }
    }
}

/// What a keyword has where the text does not name it.
pub open spec fn default_of(kt: KwargType) -> KwargView {
    match kt {
        KwargType::Bool => KwargView::Bool(false),
        KwargType::Vec => KwargView::Vec(None),
        KwargType::Str => KwargView::Str(None),
    }
}

/// The words with one space between each two.
pub open spec fn join_spec(words: Seq<Seq<char>>) -> Seq<char>
    decreases words.len(),
{
    if words.len() == 0 {
        Seq::empty()
    } else if words.len() == 1 {
        words[0]
    } else {
        join_spec(words.drop_last()) + seq![' '] + words.last()
    }
}

/// What the words after a keyword make of it: the list of them for a list
/// keyword, else their text.
pub open spec fn slice_spec(kt: KwargType, words: Seq<Seq<char>>) -> KwargView {
    if kt == KwargType::Vec {
        KwargView::Vec(Some(words))
    } else {
        KwargView::Str(Some(join_spec(words)))
    }
}

/// Whether a word has the form of a keyword: it begins with two hyphens, an
/// em dash, or two en dashes.
pub open spec fn has_prefix(w: Seq<char>) -> bool {
    ||| w.len() >= 2 && w[0] == '-' && w[1] == '-'
    ||| w.len() >= 1 && w[0] == '\u{2014}'
    ||| w.len() >= 2 && w[0] == '\u{2013}' && w[1] == '\u{2013}'
}

/// A word without the keyword prefix it begins with, if any.
pub open spec fn strip_prefix(w: Seq<char>) -> Seq<char> {
    if w.len() >= 2 && w[0] == '-' && w[1] == '-' {
        w.skip(2)
    } else if w.len() >= 1 && w[0] == '\u{2014}' {
        w.skip(1)
    } else if w.len() >= 2 && w[0] == '\u{2013}' && w[1] == '\u{2013}' {
        w.skip(2)
    } else {
        w
    }
}

/// The keyword that a word names: the word without its prefix, in lowercase.
pub open spec fn kw_name(w: Seq<char>) -> Seq<char> {
    lowercase(strip_prefix(w))
}

/// The first index from `j` on at which a word has the form of a keyword, or
/// the number of words where none has.
pub open spec fn next_kw(words: Seq<Seq<char>>, j: int) -> int
    decreases words.len() - j,
{
    if j >= words.len() {
        words.len() as int
    } else if j >= 0 && has_prefix(words[j]) {
        j
    } else {
        next_kw(words, j + 1)
    }
}

/// The last index in `lo..hi` at which a word names the keyword.
pub open spec fn last_occurrence(words: Seq<Seq<char>>, name: Seq<char>, lo: int, hi: int) -> Option<int>
    decreases hi - lo,
{
    if hi <= lo {
        None
    } else if has_prefix(words[hi - 1]) && kw_name(words[hi - 1]) == name {
        Some(hi - 1)
    } else {
        last_occurrence(words, name, lo, hi - 1)
    }
}

/// What a keyword has, given where the text names it last: `true` for a
/// switch, and for the others the words between it and the next keyword.
pub open spec fn value_for(words: Seq<Seq<char>>, occurrence: Option<int>, kt: KwargType) -> KwargView {
    match occurrence {
        None => default_of(kt),
        Some(i) => if kt == KwargType::Bool {
            KwargView::Bool(true)
        } else {
            slice_spec(kt, words.subrange(i + 1, next_kw(words, i + 1)))
        },
    }
}

/// What a keyword of a command has after a text.
pub open spec fn kwarg_value(words: Seq<Seq<char>>, name: Seq<char>, kt: KwargType) -> KwargView {
    value_for(words, last_occurrence(words, name, next_kw(words, 0), words.len() as int), kt)
}

/// Whether every word that has the form of a keyword names a keyword of the
/// command.
pub open spec fn all_known(words: Seq<Seq<char>>, names: Seq<Seq<char>>, upto: int) -> bool {
    forall|i: int| 0 <= i < upto && has_prefix(#[trigger] words[i]) ==> names.contains(kw_name(words[i]))
}

/// The argument and the keyword arguments of a command's text.
pub struct KwargData {
    pub arg: String,
    pub kwargs: NameMap<Kwarg>,
}

impl KwargData {
    /// The names of the keywords, in the command's order.
    pub open spec fn names(&self) -> Seq<Seq<char>> {
        self.kwargs.names()
    }

    /// What each keyword was given, at the index of its name.
    pub open spec fn values(&self) -> Seq<Kwarg> {
        self.kwargs.values()
    }

    /// What a keyword was given, or `None` where the command has no such
    /// keyword.
    pub fn get(&self, name: &str) -> (r: Option<&Kwarg>)
        ensures
            match r {
                Some(kwarg) => self.names().contains(name@) && *kwarg == self.values()[self.names().index_of(
                    name@,
                )],
                None => !self.names().contains(name@),
            },
    {
        self.kwargs.get(name)
    }
}

impl Kwarg {
    /// What a keyword has where the text does not name it.
    pub fn default_from_type(kt: KwargType) -> (r: Self)
        ensures
            r@ == default_of(kt),
    {
        match kt {
            KwargType::Bool => Self::Bool(false),
            KwargType::Vec => Self::Vec(None),
            KwargType::Str => Self::Str(None),
        }
    }

    /// Whether the switch was given. The keyword must be a switch.
    pub fn unwrap_bool(&self) -> (r: bool)
        requires
            self is Bool,
        ensures
            self@ == KwargView::Bool(r),
    {
        match self {
            Kwarg::Bool(b) => *b,
            _ => vstd::pervasive::unreached(),
        }
    }

    /// The words that the list keyword was given. The keyword must be a list
    /// keyword.
    pub fn unwrap_vec(&self) -> (r: Option<&[String]>)
        requires
            self is Vec,
        ensures
            match r {
                Some(v) => self@ == KwargView::Vec(Some(texts(v@))),
                None => self@ == KwargView::Vec(None),
            },
    {
        match self {
            Kwarg::Vec(Some(v)) => Some(v.as_slice()),
            Kwarg::Vec(None) => None,
            _ => vstd::pervasive::unreached(),
        }
    }

    /// The text that the text keyword was given. The keyword must be a text
    /// keyword.
    pub fn unwrap_str(&self) -> (r: Option<&str>)
        requires
            self is Str,
        ensures
            match r {
                Some(s) => self@ == KwargView::Str(Some(s@)),
                None => self@ == KwargView::Str(None),
            },
    {
        match self {
            Kwarg::Str(Some(s)) => Some(s.as_str()),
            Kwarg::Str(None) => None,
            _ => vstd::pervasive::unreached(),
        }
    }
}

/// Copies of the strings from `from` up to `to`.
fn copy_words(words: &Vec<String>, from: usize, to: usize) -> (r: Vec<String>)
    requires
        from <= to <= words@.len(),
    ensures
        texts(r@) == texts(words@).subrange(from as int, to as int),
{
    let mut out: Vec<String> = Vec::new();
    let mut i: usize = from;
    while i < to
        invariant
            from <= i <= to,
            to <= words@.len(),
            out@.len() == i - from,
            forall|j: int| 0 <= j < out@.len() ==> (#[trigger] out@[j])@ == words@[from + j]@,
        decreases to - i,
    {
        out.push(words[i].clone());
        i += 1;
    }
    assert(texts(out@) =~= texts(words@).subrange(from as int, to as int));
    out
}

/// The words with one space between each two.
pub fn join_words(words: &[String]) -> (r: String)
    ensures
        r@ == join_spec(texts(words@)),
{
    let ghost all = texts(words@);
    let mut out: Vec<char> = Vec::new();
    let mut i: usize = 0;
    assert(all.take(0) =~= Seq::<Seq<char>>::empty());
    while i < words.len()
        invariant
            i <= words.len(),
            all == texts(words@),
            out@ == join_spec(all.take(i as int)),
        decreases words.len() - i,
    {
        proof {
            assert(all.take(i + 1).drop_last() =~= all.take(i as int));
            assert(all.take(i + 1).last() == words@[i as int]@);
            if i == 0 {
                assert(all.take(1)[0] == words@[0]@);
            }
        }
        if i > 0 {
            out.push(' ');
        }
        let ghost before = out@;
        let word = chars_of(words[i].as_str());
        push_all(&mut out, &word);
        proof {
            if i > 0 {
                assert(out@ =~= join_spec(all.take(i as int)) + seq![' '] + words@[i as int]@);
            } else {
                assert(out@ =~= words@[0]@);
            }
        }
        i += 1;
    }
    assert(all.take(all.len() as int) =~= all);
    string_of(&out)
}

/// What the words after a keyword make of it.
pub fn slice_kwarg(last_kwarg_type: KwargType, words: &[String]) -> (r: Kwarg)
    ensures
        r@ == slice_spec(last_kwarg_type, texts(words@)),
{
    if last_kwarg_type == KwargType::Vec {
        let mut copy: Vec<String> = Vec::new();
        let mut i: usize = 0;
        while i < words.len()
            invariant
                i <= words.len(),
                copy@.len() == i,
                forall|j: int| 0 <= j < i ==> (#[trigger] copy@[j])@ == words@[j]@,
            decreases words.len() - i,
        {
            copy.push(words[i].clone());
            i += 1;
        }
        assert(texts(copy@) =~= texts(words@));
        Kwarg::Vec(Some(copy))
    } else {
        Kwarg::Str(Some(join_words(words)))
    }
}

/// The names of a list of keywords, each once, in the order in which they
/// first stand in the list.
pub open spec fn first_names(v: Seq<(&str, KwargType)>) -> Seq<Seq<char>>
    decreases v.len(),
{
    if v.len() == 0 {
        Seq::empty()
    } else {
        let head = first_names(v.drop_last());
        if head.contains(v.last().0@) {
            head
        } else {
            head.push(v.last().0@)
        }
    }
}

/// What a name takes by a list of keywords: what its last entry says.
pub open spec fn last_type(v: Seq<(&str, KwargType)>, name: Seq<char>) -> Option<KwargType>
    decreases v.len(),
{
    if v.len() == 0 {
        None
    } else if v.last().0@ == name {
        Some(v.last().1)
    } else {
        last_type(v.drop_last(), name)
    }
}

/// The keywords of a command, from a list of names and what each takes. A
/// name that is there twice keeps its first place and takes what is said
/// last.
pub fn map_from_vec(v: Vec<(&str, KwargType)>) -> (r: NameMap<KwargType>)
    ensures
        r.wf(),
        r.names() == first_names(v@),
        forall|name: Seq<char>| r.lookup(name) == last_type(v@, name),
{
    let mut map: NameMap<KwargType> = NameMap::new();
    let mut i: usize = 0;
    proof {
        assert(v@.take(0) =~= Seq::<(&str, KwargType)>::empty());
        assert forall|name: Seq<char>| map.lookup(name) == last_type(v@.take(0), name) by {}
    }
    while i < v.len()
        invariant
            i <= v.len(),
            map.wf(),
            map.names() == first_names(v@.take(i as int)),
            forall|name: Seq<char>| map.lookup(name) == last_type(v@.take(i as int), name),
        decreases v.len() - i,
    {
        let ghost before = map;
        let (key, value) = v[i];
        map.insert(key.to_owned(), value);
        proof {
            lemma_insert_lookup(before, map, key@, value);
            assert(v@.take(i + 1).drop_last() =~= v@.take(i as int));
            assert(v@.take(i + 1).last() == v@[i as int]);
            assert forall|name: Seq<char>| map.lookup(name) == last_type(v@.take(i + 1), name) by {
                if name != key@ {
                    assert(map.lookup(name) == before.lookup(name));
                }
            }
        }
        i += 1;
    }
    assert(v@.take(v@.len() as int) =~= v@);
    map
}

/// Whether a word has the form of a keyword.
pub fn starts_with_kw_prefix(word: &str) -> (r: bool)
    ensures
        r == has_prefix(word@),
{
    let w = chars_of(word);
    (w.len() >= 2 && w[0] == '-' && w[1] == '-') || (w.len() >= 1 && w[0] == '\u{2014}') || (w.len()
        >= 2 && w[0] == '\u{2013}' && w[1] == '\u{2013}')
}

/// The keyword that a word names.
pub fn remove_kw_prefix(word: &str) -> (r: String)
    ensures
        r@ == kw_name(word@),
{
    let w = chars_of(word);
    let from: usize = if w.len() >= 2 && w[0] == '-' && w[1] == '-' {
        2
    } else if w.len() >= 1 && w[0] == '\u{2014}' {
        1
    } else if w.len() >= 2 && w[0] == '\u{2013}' && w[1] == '\u{2013}' {
        2
    } else {
        0
    };
    let rest = vstd::slice::slice_to_vec(vstd::slice::slice_subrange(w.as_slice(), from, w.len()));
    assert(rest@ =~= strip_prefix(word@));
    str_lower(string_of(&rest).as_str())
}

/// Whether a word is a keyword of the command; an error where it has the
/// form of one and the command has none of that name.
pub fn is_kwarg(kwargs: &NameMap<KwargType>, word: &str) -> (r: Result<bool, ParseKwargError>)
    ensures
        match r {
            Ok(b) => b == has_prefix(word@) && (b ==> kwargs.names().contains(kw_name(word@))),
            Err(ParseKwargError::Invalid(name)) => has_prefix(word@) && !kwargs.names().contains(
                kw_name(word@),
            ) && name@ == kw_name(word@),
        },
{
    if !starts_with_kw_prefix(word) {
        return Ok(false);
    }
    let word = remove_kw_prefix(word);
    if kwargs.contains_key(word.as_str()) {
        Ok(true)
    } else {
        Err(ParseKwargError::Invalid(word))
    }
}

/// The next keyword from an index on is the first word of that form.
pub proof fn lemma_next_kw(words: Seq<Seq<char>>, j: int, m: int)
    requires
        0 <= j <= m <= words.len(),
        forall|i: int| j <= i < m ==> !has_prefix(#[trigger] words[i]),
        m == words.len() || has_prefix(words[m]),
    ensures
        next_kw(words, j) == m,
    decreases m - j,
{
    if j < m {
        lemma_next_kw(words, j + 1, m);
    }
}

/// Words that are no keywords do not change where a keyword is named last.
pub proof fn lemma_last_occurrence_skip(words: Seq<Seq<char>>, name: Seq<char>, lo: int, mid: int, hi: int)
    requires
        lo <= mid <= hi <= words.len(),
        0 <= lo,
        forall|i: int| mid <= i < hi ==> !has_prefix(#[trigger] words[i]),
    ensures
        last_occurrence(words, name, lo, hi) == last_occurrence(words, name, lo, mid),
    decreases hi - mid,
{
    if mid < hi {
        lemma_last_occurrence_skip(words, name, lo, mid, hi - 1);
    }
}

/// Whether the word at `i` is the first that has the form of a keyword and
/// names none of the command.
pub open spec fn is_first_unknown(words: Seq<Seq<char>>, names: Seq<Seq<char>>, i: int) -> bool {
    &&& 0 <= i < words.len()
    &&& all_known(words, names, i)
    &&& has_prefix(words[i])
    &&& !names.contains(kw_name(words[i]))
}

/// What get_kwargs gives: an error for the first word that has the form of a
/// keyword and names none of the command; else the words before the first
/// keyword as the argument, and for each keyword of the command, in the
/// command's order, what the text gives it.
pub open spec fn kwargs_post(
    s: Seq<char>,
    names: Seq<Seq<char>>,
    types: Seq<KwargType>,
    r: Result<KwargData, ParseKwargError>,
) -> bool {
    let words = words_of(s);
    match r {
        Ok(data) => {
            &&& all_known(words, names, words.len() as int)
            &&& data.arg@ == join_spec(words.take(next_kw(words, 0)))
            &&& data.names() == names
            &&& data.values().len() == names.len()
            &&& forall|k: int|
                0 <= k < names.len() ==> (#[trigger] data.values()[k])@ == kwarg_value(
                    words,
                    names[k],
                    types[k],
                )
        },
        Err(ParseKwargError::Invalid(name)) => unknown_post(words, names, name@),
    }
}

/// Whether `name` is what the first word names that has the form of a
/// keyword and names none of the command.
pub open spec fn unknown_post(words: Seq<Seq<char>>, names: Seq<Seq<char>>, name: Seq<char>) -> bool {
    exists|i: int| #[trigger] is_first_unknown(words, names, i) && name == kw_name(words[i])
}

/// Reads the argument and the keyword arguments of a command's text. The
/// words before the first keyword are the argument. A switch is set where it
/// is named; a list or text keyword takes the words between it and the next
/// keyword, and where it is named more than once, those after the last.
pub fn get_kwargs(s: &str, cmd_kwargs: &NameMap<KwargType>) -> (r: Result<KwargData, ParseKwargError>)
    ensures
        kwargs_post(s@, cmd_kwargs.names(), cmd_kwargs.values(), r),
{
    let words = crate::util::parser::get_args(s);
    let ghost ws = words_of(s@);
    let ghost names = cmd_kwargs.names();
    let ghost types = cmd_kwargs.values();
    let n = words.len();
    let count = cmd_kwargs.len();
    assert(texts(words@) =~= ws);

    let mut is_kwargs: Vec<bool> = Vec::new();
    let mut i: usize = 0;
    while i < n
        invariant
            i <= n,
            n == words@.len(),
            ws == words_of(s@),
            texts(words@) == ws,
            names == cmd_kwargs.names(),
            is_kwargs@.len() == i,
            all_known(ws, names, i as int),
            forall|j: int| 0 <= j < i ==> is_kwargs@[j] == has_prefix(#[trigger] ws[j]),
        decreases n - i,
    {
        assert(ws[i as int] == words@[i as int]@);
        match is_kwarg(cmd_kwargs, words[i].as_str()) {
            Ok(b) => {
                is_kwargs.push(b);
            },
            Err(e) => {
                proof {
                    assert(is_first_unknown(ws, names, i as int));
                }
                return Err(e);
            },
        }
        i += 1;
    }

    let mut arg_index: usize = 0;
    while arg_index < n && !is_kwargs[arg_index]
        invariant
            arg_index <= n,
            n == words@.len(),
            is_kwargs@.len() == n,
            n == ws.len(),
            forall|j: int| 0 <= j < n ==> is_kwargs@[j] == has_prefix(#[trigger] ws[j]),
            forall|j: int| 0 <= j < arg_index ==> !has_prefix(#[trigger] ws[j]),
        decreases n - arg_index,
    {
        arg_index += 1;
    }
    proof {
        lemma_next_kw(ws, 0, arg_index as int);
    }
    let head = copy_words(&words, 0, arg_index);
    assert(texts(head@) =~= ws.take(arg_index as int));
    let arg = join_words(head.as_slice());

    let mut kwargs: NameMap<Kwarg> = NameMap::new();
    let mut k: usize = 0;
    while k < count
        invariant
            k <= count,
            count == names.len(),
            names == cmd_kwargs.names(),
            types == cmd_kwargs.values(),
            cmd_kwargs.wf(),
            kwargs.wf(),
            kwargs.names() == names.take(k as int),
            kwargs.values().len() == k,
            forall|j: int| 0 <= j < k ==> (#[trigger] kwargs.values()[j])@ == default_of(types[j]),
        decreases count - k,
    {
        match cmd_kwargs.get_index(k) {
            Some((kw_name, kw_type)) => {
                proof {
                    if names.take(k as int).contains(names[k as int]) {
                        let j = names.take(k as int).index_of(names[k as int]);
                        assert(names[j] == names[k as int]);
                    }
                    assert(names.take(k + 1) =~= names.take(k as int).push(names[k as int]));
                }
                kwargs.insert(kw_name.clone(), Kwarg::default_from_type(*kw_type));
            },
            None => {
                assert(false);
            },
        }
        k += 1;
    }
    assert(names.take(count as int) =~= names);

    let mut in_vec = false;
    let mut open_at: usize = 0;
    let mut idx: usize = arg_index;
    proof {
        assert forall|j: int| 0 <= j < names.len() implies last_occurrence(
            ws,
            #[trigger] names[j],
            arg_index as int,
            arg_index as int,
        ) is None by {}
    }
    while idx < n
        invariant
            arg_index <= idx <= n,
            n == words@.len(),
            n == ws.len(),
            texts(words@) == ws,
            names == cmd_kwargs.names(),
            types == cmd_kwargs.values(),
            cmd_kwargs.wf(),
            is_kwargs@.len() == n,
            all_known(ws, names, n as int),
            forall|j: int| 0 <= j < n ==> is_kwargs@[j] == has_prefix(#[trigger] ws[j]),
            kwargs.wf(),
            kwargs.names() == names,
            kwargs.values().len() == names.len(),
            in_vec ==> {
                &&& arg_index <= open_at < idx
                &&& has_prefix(ws[open_at as int])
                &&& names.contains(kw_name(ws[open_at as int]))
                &&& types[names.index_of(kw_name(ws[open_at as int]))] != KwargType::Bool
                &&& forall|j: int| open_at < j < idx ==> !has_prefix(#[trigger] ws[j])
            },
            forall|j: int|
                0 <= j < names.len() && !(in_vec && kw_name(ws[open_at as int]) == names[j]) ==> (
                #[trigger] kwargs.values()[j])@ == value_for(
                    ws,
                    last_occurrence(ws, names[j], arg_index as int, idx as int),
                    types[j],
                ),
        decreases n - idx,
    {
        if !is_kwargs[idx] {
            proof {
                assert forall|j: int| 0 <= j < names.len() implies last_occurrence(
                    ws,
                    #[trigger] names[j],
                    arg_index as int,
                    idx + 1,
                ) == last_occurrence(ws, names[j], arg_index as int, idx as int) by {}
            }
            idx += 1;
            continue;
        }
        assert(ws[idx as int] == words@[idx as int]@);
        let word = remove_kw_prefix(words[idx].as_str());
        let kw_type = match cmd_kwargs.get(word.as_str()) {
            Some(kw_type) => *kw_type,
            None => {
                assert(names.contains(kw_name(ws[idx as int])));
                vstd::pervasive::unreached()
            },
        };
        let ghost w = word@;
        let ghost wi = names.index_of(w);
        assert(names[wi] == w && types[wi] == kw_type);

        // The keyword ends the list that was open.
        if in_vec {
            let ghost open_name = kw_name(ws[open_at as int]);
            assert(ws[open_at as int] == words@[open_at as int]@);
            let open_word = remove_kw_prefix(words[open_at].as_str());
            let open_type = match cmd_kwargs.get(open_word.as_str()) {
                Some(open_type) => *open_type,
                None => vstd::pervasive::unreached(),
            };
            let tail = copy_words(&words, open_at + 1, idx);
            let ghost before = kwargs;
            let value = slice_kwarg(open_type, tail.as_slice());
            kwargs.insert(open_word, value);
            proof {
                let oi = names.index_of(open_name);
                assert(names[oi] == open_name);
                lemma_next_kw(ws, open_at + 1, idx as int);
                lemma_last_occurrence_skip(ws, open_name, arg_index as int, open_at + 1, idx as int);
                assert(kwargs.values() =~= before.values().update(oi, value));
                assert(kwargs.values()[oi]@ == value_for(
                    ws,
                    last_occurrence(ws, open_name, arg_index as int, idx as int),
                    types[oi],
                ));
                assert forall|j: int| 0 <= j < names.len() implies (#[trigger] kwargs.values()[j])@
                    == value_for(
                    ws,
                    last_occurrence(ws, names[j], arg_index as int, idx as int),
                    types[j],
                ) by {
                    if j != oi {
                        assert(names[j] != names[oi]);
                    }
                }
            }
        }
        in_vec = kw_type == KwargType::Vec || kw_type == KwargType::Str;
        if !in_vec {
            let ghost before = kwargs;
            let value = Kwarg::Bool(true);
            kwargs.insert(word.clone(), value);
            proof {
                assert(kwargs.values() =~= before.values().update(wi, value));
                assert forall|j: int| 0 <= j < names.len() implies (#[trigger] kwargs.values()[j])@
                    == value_for(
                    ws,
                    last_occurrence(ws, names[j], arg_index as int, idx + 1),
                    types[j],
                ) by {
                    if j != wi {
                        assert(names[j] != names[wi]);
                    }
                }
            }
        } else {
            open_at = idx;
            proof {
                assert forall|j: int|
                    0 <= j < names.len() && !(kw_name(ws[idx as int]) == names[j]) implies (
                #[trigger] kwargs.values()[j])@ == value_for(
                    ws,
                    last_occurrence(ws, names[j], arg_index as int, idx + 1),
                    types[j],
                ) by {}
            }
        }
        idx += 1;
    }

    if in_vec {
        assert(ws[open_at as int] == words@[open_at as int]@);
        let open_word = remove_kw_prefix(words[open_at].as_str());
        let open_type = match cmd_kwargs.get(open_word.as_str()) {
            Some(open_type) => *open_type,
            None => vstd::pervasive::unreached(),
        };
        let tail = copy_words(&words, open_at + 1, n);
        let ghost before = kwargs;
        let ghost open_name = kw_name(ws[open_at as int]);
        let value = slice_kwarg(open_type, tail.as_slice());
        kwargs.insert(open_word, value);
        proof {
            let oi = names.index_of(open_name);
            assert(names[oi] == open_name);
            lemma_next_kw(ws, open_at + 1, n as int);
            lemma_last_occurrence_skip(ws, open_name, arg_index as int, open_at + 1, n as int);
            assert(kwargs.values() =~= before.values().update(oi, value));
            assert forall|j: int| 0 <= j < names.len() implies (#[trigger] kwargs.values()[j])@
                == value_for(ws, last_occurrence(ws, names[j], arg_index as int, n as int), types[j]) by {
                if j != oi {
                    assert(names[j] != names[oi]);
                }
            }
        }
    }
    let data = KwargData { arg, kwargs };
    assert(kwargs_post(s@, names, types, Ok(data)));
    Ok(data)
}

} // verus!
