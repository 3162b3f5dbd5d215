//! The corpus that each caller prefers, and the grams of a corpus.

use std::collections::HashMap;
use vstd::prelude::*;
use crate::util::analyzer::{Monogram, Trigram};
use crate::util::text::{chars_of, lowercase, push_str, str_lower, str_owned, string_of};

verus! {

/// The corpus of a caller who has chosen none.
pub const CORPUS: &'static str = "mt-quotes";

/// The file of the grams of each length, from one to three.
pub const NGRAMS: [&'static str; 3] = ["monograms", "bigrams", "trigrams"];

/// The corpus that each caller has chosen, under the caller's identity.
pub type Prefs = HashMap<u64, String>;

/// The corpus of a caller: the one chosen, or the default.
pub open spec fn user_corpus(prefs: Map<u64, String>, id: u64) -> Seq<char> {
    if prefs.contains_key(id) {
        prefs[id]@
    } else {
        CORPUS@
    }
}

/// Whether a corpus of the name is known.
pub open spec fn is_known(corpora: Seq<String>, name: Seq<char>) -> bool {
    exists|i: int| 0 <= i < corpora.len() && (#[trigger] corpora[i])@ == name
}

/// The path of a file of a corpus.
pub open spec fn corpus_path(corpus: Seq<char>, file: Seq<char>) -> Seq<char> {
    "./corpora/"@ + corpus + "/"@ + file + ".json"@
}

/// The corpus of a caller: the one chosen, or the default.
pub fn get_user_corpus(prefs: &Prefs, id: u64) -> (r: String)
    ensures
        r@ == user_corpus(prefs@, id),
{
    broadcast use vstd::std_specs::hash::group_hash_axioms;

    match prefs.get(&id) {
        Some(corpus) => corpus.clone(),
        None => str_owned(CORPUS),
    }
}

/// Whether a corpus of the name is in the list.
pub fn is_listed(corpora: &Vec<String>, name: &str) -> (r: bool)
    ensures
        r == is_known(corpora@, name@),
{
    let mut i: usize = 0;
    while i < corpora.len()
        invariant
            i <= corpora.len(),
            forall|j: int| 0 <= j < i ==> (#[trigger] corpora@[j])@ != name@,
        decreases corpora.len() - i,
    {
        if crate::util::text::str_eq(corpora[i].as_str(), name) {
            return true;
        }
        i += 1;
    }
    false
}

/// Makes a corpus the caller's choice. The name is taken in lowercase; where
/// no corpus of that name is known nothing changes and an error comes back.
pub fn set_user_corpus(prefs: &mut Prefs, corpora: &Vec<String>, id: u64, corpus_name: &str) -> (r:
    Result<(), ()>)
    ensures
        r is Ok == is_known(corpora@, lowercase(corpus_name@)),
        r is Err ==> final(prefs)@ == old(prefs)@,
        r is Ok ==> final(prefs)@ == old(prefs)@.insert(id, final(prefs)@[id]) && final(prefs)@[id]@
            == lowercase(corpus_name@),
{
    broadcast use vstd::std_specs::hash::group_hash_axioms;

    let lower = str_lower(corpus_name);
    if !is_listed(corpora, lower.as_str()) {
        return Err(());
    }
    prefs.insert(id, lower);
    Ok(())
}

/// The path of the file that holds the caller's corpus of grams of length
/// `n`, from one to three.
pub fn ngrams(prefs: &Prefs, id: u64, n: usize) -> (r: String)
    requires
        1 <= n <= 3,
    ensures
        r@ == corpus_path(user_corpus(prefs@, id), NGRAMS[n - 1]@),
{
    let user_corpus = get_user_corpus(prefs, id);
    path_of(user_corpus.as_str(), NGRAMS[n - 1])
}

/// The path of the file that holds the caller's corpus of words.
pub fn words(prefs: &Prefs, id: u64) -> (r: String)
    ensures
        r@ == corpus_path(user_corpus(prefs@, id), "words"@),
{
    let user_corpus = get_user_corpus(prefs, id);
    path_of(user_corpus.as_str(), "words")
}

/// The path of a file of a corpus.
pub fn path_of(corpus: &str, file: &str) -> (r: String)
    ensures
        r@ == corpus_path(corpus@, file@),
{
    let mut out: Vec<char> = Vec::new();
    push_str(&mut out, "./corpora/");
    push_str(&mut out, corpus);
    push_str(&mut out, "/");
    push_str(&mut out, file);
    push_str(&mut out, ".json");
    assert(out@ =~= corpus_path(corpus@, file@));
    string_of(&out)
}

/// The trigram that a key of a corpus file spells: its three characters in
/// lowercase; `None` unless the lowercase text has exactly three.
pub open spec fn trigram_of(key: Seq<char>) -> Option<Seq<char>> {
    if lowercase(key).len() == 3 {
        Some(lowercase(key))
    } else {
        None
    }
}

/// The trigram that a key of a corpus file spells.
pub fn trigram(key: &str) -> (r: Option<Trigram>)
    ensures
        match r {
            Some(gram) => trigram_of(key@) == Some(gram@),
            None => trigram_of(key@) is None,
        },
{
    let lower = str_lower(key);
    let chars = chars_of(lower.as_str());
    if chars.len() != 3 {
        return None;
    }
    let gram: Trigram = [chars[0], chars[1], chars[2]];
    assert(gram@ =~= chars@);
    Some(gram)
}

/// The corpus of trigrams that the entries of a corpus file spell, in their
/// order; `None` where a key does not spell a trigram.
pub fn get_corpus(entries: &Vec<(String, u64)>) -> (r: Option<Vec<(Trigram, u64)>>)
    ensures
        match r {
            Some(grams) => {
                &&& grams@.len() == entries@.len()
                &&& forall|i: int|
                    0 <= i < grams@.len() ==> trigram_of(entries@[i].0@) == Some(
                        (#[trigger] grams@[i]).0@,
                    ) && grams@[i].1 == entries@[i].1
            },
            None => exists|i: int|
                0 <= i < entries@.len() && trigram_of((#[trigger] entries@[i]).0@) is None,
        },
{
    let mut grams: Vec<(Trigram, u64)> = Vec::new();
    let mut i: usize = 0;
    while i < entries.len()
        invariant
            i <= entries.len(),
            grams@.len() == i,
            forall|j: int|
                0 <= j < i ==> trigram_of(entries@[j].0@) == Some((#[trigger] grams@[j]).0@)
                    && grams@[j].1 == entries@[j].1,
        decreases entries.len() - i,
    {
        match trigram(entries[i].0.as_str()) {
            Some(gram) => {
                grams.push((gram, entries[i].1));
            },
            None => {
                return None;
            },
        }
        i += 1;
    }
    Some(grams)
}

/// The monogram that a key of a corpus file spells: its one character in
/// lowercase; `None` unless the lowercase text has exactly one.
pub open spec fn monogram_of(key: Seq<char>) -> Option<Seq<char>> {
    if lowercase(key).len() == 1 {
        Some(lowercase(key))
    } else {
        None
    }
}

/// The monogram that a key of a corpus file spells.
pub fn monogram(key: &str) -> (r: Option<Monogram>)
    ensures
        match r {
            Some(gram) => monogram_of(key@) == Some(gram@),
            None => monogram_of(key@) is None,
        },
{
    let lower = str_lower(key);
    let chars = chars_of(lower.as_str());
    if chars.len() != 1 {
        return None;
    }
    let gram: Monogram = [chars[0]];
    assert(gram@ =~= chars@);
    Some(gram)
}

/// The corpus of monograms that the entries of a corpus file spell, in their
/// order; `None` where a key does not spell a monogram.
pub fn get_monograms(entries: &Vec<(String, u64)>) -> (r: Option<Vec<(Monogram, u64)>>)
    ensures
        match r {
            Some(grams) => {
                &&& grams@.len() == entries@.len()
                &&& forall|i: int|
                    0 <= i < grams@.len() ==> monogram_of(entries@[i].0@) == Some(
                        (#[trigger] grams@[i]).0@,
                    ) && grams@[i].1 == entries@[i].1
            },
            None => exists|i: int|
                0 <= i < entries@.len() && monogram_of((#[trigger] entries@[i]).0@) is None,
        },
{
    let mut grams: Vec<(Monogram, u64)> = Vec::new();
    let mut i: usize = 0;
    while i < entries.len()
        invariant
            i <= entries.len(),
            grams@.len() == i,
            forall|j: int|
                0 <= j < i ==> monogram_of(entries@[j].0@) == Some((#[trigger] grams@[j]).0@)
                    && grams@[j].1 == entries@[j].1,
        decreases entries.len() - i,
    {
        match monogram(entries[i].0.as_str()) {
            Some(gram) => {
                grams.push((gram, entries[i].1));
            },
            None => {
                return None;
            },
        }
        i += 1;
    }
    Some(grams)
}

} // verus!
