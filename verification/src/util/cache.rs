//! The cache of stats: for each layout the checksum its stats were computed
//! for, and the stat of each corpus.

use vstd::prelude::*;
use crate::util::analyzer::{stat_of, trigrams, Table, Trigram};
use crate::util::conv;
use crate::util::memory::{distinct_names, ServerLayouts};
use crate::util::model::{Freq, LayoutConfig, Metric, Position, Stat, StatError};
use crate::util::names::{lemma_insert_lookup, NameMap};
use crate::util::text::{is_ascending, str_lower};

verus! {

/// The stat of each corpus, under the corpus's name.
pub type CachedStats = NameMap<Stat>;

/// What is cached for one layout: the checksum of the keys that the stats
/// were computed for, and the stats.
pub struct RawCachedStatConfig {
    pub sum: u64,
    pub stats: CachedStats,
}

/// What is cached for one layout as it is persisted: each stat as packed
/// text.
pub struct JsonCachedStatConfig {
    pub sum: u64,
    pub stats: NameMap<String>,
}

/// A corpus of trigrams under its name.
pub struct Corpus {
    pub name: String,
    pub trigrams: Vec<(Trigram, u64)>,
}

impl JsonCachedStatConfig {
    /// The record to persist: each stat packed, under the same corpus name,
    /// the names in ascending order.
    pub fn from_raw(cached_stat_config: &RawCachedStatConfig) -> (r: Self)
        ensures
            r.sum == cached_stat_config.sum,
            r.stats.wf(),
            is_ascending(r.stats.names()),
            forall|name: Seq<char>|
                match #[trigger] cached_stat_config.stats.lookup(name) {
                    Some(stat) => r.stats.lookup(name) is Some && r.stats.lookup(name)->Some_0@
                        == conv::stats::pack_spec(stat@),
                    None => r.stats.lookup(name) is None,
                },
    {
        let n = cached_stat_config.stats.len();
        let mut stats: NameMap<String> = NameMap::new();
        let mut i: usize = 0;
        while i < n
            invariant
                i <= n,
                n == cached_stat_config.stats.names().len(),
                cached_stat_config.stats.wf(),
                stats.wf(),
                stats.names() == cached_stat_config.stats.names().take(i as int),
                stats.values().len() == i,
                forall|j: int|
                    0 <= j < i ==> (#[trigger] stats.values()[j])@ == conv::stats::pack_spec(
                        cached_stat_config.stats.values()[j]@,
                    ),
            decreases n - i,
        {
            match cached_stat_config.stats.get_index(i) {
                Some((corpus, stat)) => {
                    proof {
                        let all = cached_stat_config.stats.names();
                        if all.take(i as int).contains(all[i as int]) {
                            let j = all.take(i as int).index_of(all[i as int]);
                            assert(all[j] == all[i as int]);
                        }
                        assert(all.take(i + 1) =~= all.take(i as int).push(all[i as int]));
                    }
                    stats.insert(corpus.clone(), conv::stats::pack(stat));
                },
                None => {
                    assert(false);
                },
            }
            i += 1;
        }
        assert(cached_stat_config.stats.names().take(n as int) =~= cached_stat_config.stats.names());
        let ghost unsorted = stats;
        stats.sort_keys();
        proof {
            assert forall|name: Seq<char>|
                match #[trigger] cached_stat_config.stats.lookup(name) {
                    Some(stat) => stats.lookup(name) is Some && stats.lookup(name)->Some_0@
                        == conv::stats::pack_spec(stat@),
                    None => stats.lookup(name) is None,
                } by {
                assert(stats.lookup(name) == unsorted.lookup(name));
            }
        }
        JsonCachedStatConfig { sum: cached_stat_config.sum, stats }
    }
}

impl RawCachedStatConfig {
    /// What a persisted record spells: each packed stat unpacked, under the
    /// same corpus name and in the same order; `None` where one of the texts
    /// is not a packed stat.
    pub fn from_json(json: &JsonCachedStatConfig) -> (r: Option<Self>)
        ensures
            match r {
                Some(raw) => {
                    &&& raw.sum == json.sum
                    &&& raw.stats.wf()
                    &&& raw.stats.names() == json.stats.names()
                    &&& raw.stats.values().len() == json.stats.values().len()
                    &&& forall|i: int|
                        0 <= i < raw.stats.values().len() ==> conv::stats::unpack_spec(
                            json.stats.values()[i]@,
                        ) == Some((#[trigger] raw.stats.values()[i])@)
                },
                None => exists|i: int|
                    0 <= i < json.stats.values().len() && conv::stats::unpack_spec(
                        (#[trigger] json.stats.values()[i])@,
                    ) is None,
            },
    {
        let n = json.stats.len();
        let mut stats: CachedStats = NameMap::new();
        let mut i: usize = 0;
        while i < n
            invariant
                i <= n,
                n == json.stats.names().len(),
                json.stats.wf(),
                stats.wf(),
                stats.names() == json.stats.names().take(i as int),
                stats.values().len() == i,
                forall|j: int|
                    0 <= j < i ==> conv::stats::unpack_spec(json.stats.values()[j]@) == Some(
                        (#[trigger] stats.values()[j])@,
                    ),
            decreases n - i,
        {
            match json.stats.get_index(i) {
                Some((corpus, packed)) => {
                    let stat = match conv::stats::try_unpack(packed.as_str()) {
                        Some(stat) => stat,
                        None => {
                            return None;
                        },
                    };
                    proof {
                        let all = json.stats.names();
                        if all.take(i as int).contains(all[i as int]) {
                            let j = all.take(i as int).index_of(all[i as int]);
                            assert(all[j] == all[i as int]);
                        }
                        assert(all.take(i + 1) =~= all.take(i as int).push(all[i as int]));
                    }
                    stats.insert(corpus.clone(), stat);
                },
                None => {
                    assert(false);
                },
            }
            i += 1;
        }
        assert(json.stats.names().take(n as int) =~= json.stats.names());
        Some(RawCachedStatConfig { sum: json.sum, stats })
    }
}

/// The stat that a list of corpora gives a corpus name on a layout: that of
/// the last corpus of the name that has one.
pub open spec fn corpus_stat(
    corpora: Seq<Corpus>,
    keys: Map<char, Position>,
    table: Seq<Metric>,
    name: Seq<char>,
) -> Option<Seq<Freq>>
    decreases corpora.len(),
{
    if corpora.len() == 0 {
        None
    } else {
        let last = corpora.last();
        if last.name@ == name && stat_of(last.trigrams@, keys, table) is Ok {
            Some(stat_of(last.trigrams@, keys, table)->Ok_0)
        } else {
            corpus_stat(corpora.drop_last(), keys, table, name)
        }
    }
}

/// Whether the stats are those that the corpora give on the layout.
pub open spec fn stats_match(
    stats: CachedStats,
    corpora: Seq<Corpus>,
    keys: Map<char, Position>,
    table: Seq<Metric>,
) -> bool {
    forall|name: Seq<char>|
        match #[trigger] corpus_stat(corpora, keys, table, name) {
            Some(freqs) => stats.lookup(name) is Some && stats.lookup(name)->Some_0@ == freqs,
            None => stats.lookup(name) is None,
        }
}

/// Whether an entry is what a fresh computation gives for the layout: its
/// checksum, and the stat of each corpus that has one.
pub open spec fn is_refreshed(
    entry: RawCachedStatConfig,
    ll: LayoutConfig,
    corpora: Seq<Corpus>,
    table: Seq<Metric>,
) -> bool {
    entry.sum == ll.sum && entry.stats.wf() && stats_match(entry.stats, corpora, ll.keys@, table)
}

/// Computes the stat of one corpus on a layout and files it under the
/// corpus's name. A corpus that gives no stat leaves the stats as they are.
pub fn cache_fill(
    ll: &LayoutConfig,
    table: &Table,
    data: &mut CachedStats,
    corpus: &str,
    grams: &[(Trigram, u64)],
) -> (r: Result<(), StatError>)
    ensures
        final(data).wf(),
        match r {
            Ok(_) => {
                &&& stat_of(grams@, ll.keys@, table@) is Ok
                &&& final(data).lookup(corpus@) is Some
                &&& final(data).lookup(corpus@)->Some_0@ == stat_of(grams@, ll.keys@, table@)->Ok_0
                &&& forall|name: Seq<char>|
                    name != corpus@ ==> final(data).lookup(name) == old(data).lookup(name)
            },
            Err(e) => stat_of(grams@, ll.keys@, table@) == Err::<Seq<Freq>, StatError>(e) && *final(data) == *old(data),
        },
{
    let _ = data.len();
    match trigrams(ll, table, grams) {
        Ok(stats) => {
            let ghost before = *data;
            data.insert(corpus.to_owned(), stats);
            proof {
                lemma_insert_lookup(before, *data, corpus@, stats);
            }
            Ok(())
        },
        Err(e) => Err(e),
    }
}

/// What is to be cached for a layout: its checksum and, for every corpus
/// that gives one, its stat. A corpus that gives none is left out, and the
/// others still get theirs.
pub fn refresh(ll: &LayoutConfig, table: &Table, corpora: &Vec<Corpus>) -> (r: RawCachedStatConfig)
    ensures
        is_refreshed(r, *ll, corpora@, table@),
{
    let mut stats: CachedStats = NameMap::new();
    let mut i: usize = 0;
    proof {
        assert forall|name: Seq<char>|
            (#[trigger] corpus_stat(corpora@.take(0), ll.keys@, table@, name)) is None
            && stats.lookup(name) is None by {}
    }
    while i < corpora.len()
        invariant
            i <= corpora.len(),
            stats.wf(),
            stats_match(stats, corpora@.take(i as int), ll.keys@, table@),
        decreases corpora.len() - i,
    {
        let corpus = &corpora[i];
        let ghost before = stats;
        let _ = cache_fill(ll, table, &mut stats, corpus.name.as_str(), corpus.trigrams.as_slice());
        proof {
            let done = corpora@.take(i as int);
            let next = corpora@.take(i + 1);
            assert(next.drop_last() =~= done);
            assert(next.last() == corpora@[i as int]);
            assert forall|name: Seq<char>|
                match #[trigger] corpus_stat(next, ll.keys@, table@, name) {
                    Some(freqs) => stats.lookup(name) is Some && stats.lookup(name)->Some_0@
                        == freqs,
                    None => stats.lookup(name) is None,
                } by {
                let prev = corpus_stat(done, ll.keys@, table@, name);
                assert(match prev {
                    Some(freqs) => before.lookup(name) is Some && before.lookup(name)->Some_0@
                        == freqs,
                    None => before.lookup(name) is None,
                });
            }
        }
        i += 1;
    }
    assert(corpora@.take(corpora@.len() as int) =~= corpora@);
    RawCachedStatConfig { sum: ll.sum, stats }
}

/// How many of the layouts have no entry with their checksum.
pub open spec fn stale_count(cache: ServerCachedStats, layouts: Seq<LayoutConfig>) -> int
    decreases layouts.len(),
{
    if layouts.len() == 0 {
        0
    } else {
        stale_count(cache, layouts.drop_last()) + (if cache.fresh(layouts.last()) {
            0int
        } else {
            1int
        })
    }
}

/// Where every layout has an entry with its checksum, none is stale: a
/// second pass over unchanged layouts computes nothing.
pub proof fn lemma_fresh_none_stale(cache: ServerCachedStats, layouts: Seq<LayoutConfig>)
    requires
        forall|i: int| 0 <= i < layouts.len() ==> cache.fresh(#[trigger] layouts[i]),
    ensures
        stale_count(cache, layouts) == 0,
    decreases layouts.len(),
{
    if layouts.len() > 0 {
        assert forall|i: int| 0 <= i < layouts.drop_last().len() implies cache.fresh(
            #[trigger] layouts.drop_last()[i],
        ) by {
            assert(layouts.drop_last()[i] == layouts[i]);
        }
        lemma_fresh_none_stale(cache, layouts.drop_last());
        assert(cache.fresh(layouts[layouts.len() - 1]));
    }
}

/// The cache: what is cached for each layout, under the layout's name.
pub struct ServerCachedStats {
    map: NameMap<RawCachedStatConfig>,
}

impl ServerCachedStats {
    /// The names that have an entry, in the cache's order.
    pub closed spec fn names(&self) -> Seq<Seq<char>> {
        self.map.names()
    }

    /// What is cached under a name, if anything.
    pub closed spec fn entry(&self, name: Seq<char>) -> Option<RawCachedStatConfig> {
        self.map.lookup(name)
    }

    /// The stat cached for a layout name and a corpus name, if any.
    pub open spec fn stat(&self, name: Seq<char>, corpus: Seq<char>) -> Option<Stat> {
        match self.entry(name) {
            Some(entry) => entry.stats.lookup(corpus),
            None => None,
        }
    }

    /// Whether the cache holds an entry for the layout with the layout's
    /// checksum.
    pub open spec fn fresh(&self, ll: LayoutConfig) -> bool {
        match self.entry(ll.name@) {
            Some(entry) => entry.sum == ll.sum,
            None => false,
        }
    }

    /// The cache that holds nothing.
    pub fn new() -> (r: Self)
        ensures
            forall|name: Seq<char>| r.entry(name) is None,
    {
        ServerCachedStats { map: NameMap::new() }
    }

    /// How many layouts have an entry.
    pub fn len(&self) -> (r: usize)
        ensures
            r == self.names().len(),
    {
        self.map.len()
    }

    /// The name and the entry at an index of the cache's order, or `None`
    /// past the end.
    pub fn get_index(&self, index: usize) -> (r: Option<(&String, &RawCachedStatConfig)>)
        ensures
            match r {
                Some((name, entry)) => index < self.names().len() && name@ == self.names()[index as int]
                    && self.entry(name@) == Some(*entry),
                None => index >= self.names().len(),
            },
    {
        let r = self.map.get_index(index);
        proof {
            if let Some((name, entry)) = r {
                let names = self.map.names();
                assert(names[index as int] == name@);
                assert(names.contains(name@));
                let j = names.index_of(name@);
                assert(names[j] == name@);
            }
        }
        r
    }

    /// The stat cached under exactly this layout name and corpus name.
    pub fn get_exact(&self, name: &str, corpus: &str) -> (r: Option<&Stat>)
        ensures
            match r {
                Some(stat) => self.stat(name@, corpus@) == Some(*stat),
                None => self.stat(name@, corpus@) is None,
            },
    {
        match self.map.get(name) {
            Some(entry) => entry.stats.get(corpus),
            None => None,
        }
    }

    /// The stat cached for a layout and a corpus, both names in any case:
    /// none where either name is empty, where the layout has no entry, or
    /// where the corpus was never computed for it.
    pub fn get(&self, name: &str, corpus: &str) -> (r: Option<&Stat>)
        ensures
            match r {
                Some(stat) => {
                    &&& name@.len() > 0
                    &&& corpus@.len() > 0
                    &&& self.stat(crate::util::text::lowercase(name@), crate::util::text::lowercase(corpus@))
                        == Some(*stat)
                },
                None => {
                    ||| name@.len() == 0
                    ||| corpus@.len() == 0
                    ||| self.stat(
                        crate::util::text::lowercase(name@),
                        crate::util::text::lowercase(corpus@),
                    ) is None
                },
            },
    {
        if name.is_empty() || corpus.is_empty() {
            return None;
        }
        let name = str_lower(name);
        let corpus = str_lower(corpus);
        self.get_exact(name.as_str(), corpus.as_str())
    }

    /// Whether the cache holds an entry for the layout with the layout's
    /// checksum, so that nothing is to be computed for it.
    pub fn is_fresh(&self, ll: &LayoutConfig) -> (r: bool)
        ensures
            r == self.fresh(*ll),
    {
        match self.map.get(ll.name.as_str()) {
            Some(entry) => entry.sum == ll.sum,
            None => false,
        }
    }

    /// Puts an entry under a name, in the place of the one that was there,
    /// if any. Every other name keeps its entry.
    pub fn update(&mut self, name: String, data: RawCachedStatConfig)
        ensures
            final(self).entry(name@) == Some(data),
            forall|other: Seq<char>| other != name@ ==> final(self).entry(other) == old(self).entry(other),
    {
        let _ = self.map.len();
        let ghost before = self.map;
        let ghost key = name@;
        self.map.insert(name, data);
        proof {
            lemma_insert_lookup(before, self.map, key, data);
        }
    }

    /// Puts the entries in ascending order of their names.
    pub fn sort(&mut self)
        ensures
            is_ascending(final(self).names()),
            forall|name: Seq<char>| final(self).entry(name) == old(self).entry(name),
    {
        self.map.sort_keys();
    }

    /// One pass over all the layouts: a layout whose entry has its checksum
    /// is skipped; for every other, the stats of all the corpora are
    /// computed and its entry is replaced whole. Then the entries are put in
    /// ascending order of their names. Returns how many layouts were
    /// computed. After the pass every layout has an entry with its checksum,
    /// so a second pass over the same layouts computes nothing.
    pub fn cache_files(&mut self, layouts: &ServerLayouts, table: &Table, corpora: &Vec<Corpus>) -> (r:
        usize)
        ensures
            r == stale_count(*old(self), layouts@),
            is_ascending(final(self).names()),
            forall|i: int| 0 <= i < layouts@.len() ==> final(self).fresh(#[trigger] layouts@[i]),
            stale_count(*final(self), layouts@) == 0,
            forall|i: int|
                0 <= i < layouts@.len() ==> if old(self).fresh(#[trigger] layouts@[i]) {
                    final(self).entry(layouts@[i].name@) == old(self).entry(layouts@[i].name@)
                } else {
                    is_refreshed(
                        final(self).entry(layouts@[i].name@)->Some_0,
                        layouts@[i],
                        corpora@,
                        table@,
                    )
                },
            forall|name: Seq<char>|
                !crate::util::memory::has_name(layouts@, name) ==> final(self).entry(name) == old(self).entry(name),
    {
        let n = layouts.len();
        let ghost all = layouts@;
        let mut computed: usize = 0;
        let mut i: usize = 0;
        while i < n
            invariant
                i <= n,
                n == all.len(),
                all == layouts@,
                distinct_names(all),
                computed == stale_count(*old(self), all.take(i as int)),
                computed <= i,
                forall|j: int| 0 <= j < i ==> self.fresh(#[trigger] all[j]),
                forall|j: int|
                    0 <= j < i ==> if old(self).fresh(#[trigger] all[j]) {
                        self.entry(all[j].name@) == old(self).entry(all[j].name@)
                    } else {
                        is_refreshed(self.entry(all[j].name@)->Some_0, all[j], corpora@, table@)
                    },
                forall|j: int|
                    i <= j < n ==> self.entry((#[trigger] all[j]).name@) == old(self).entry(
                        all[j].name@,
                    ),
                forall|name: Seq<char>|
                    !crate::util::memory::has_name(all, name) ==> self.entry(name) == old(self).entry(
                        name,
                    ),
            decreases n - i,
        {
            let ll = match layouts.get_index(i) {
                Some(ll) => ll,
                None => vstd::pervasive::unreached(),
            };
            proof {
                assert(all.take(i + 1).drop_last() =~= all.take(i as int));
                assert(all.take(i + 1).last() == all[i as int]);
                assert(crate::util::memory::has_name(all, all[i as int].name@));
            }
            if !self.is_fresh(ll) {
                let cached = refresh(ll, table, corpora);
                let ghost before = *self;
                self.update(ll.name.clone(), cached);
                computed += 1;
                proof {
                    assert forall|j: int| 0 <= j < i implies self.fresh(#[trigger] all[j]) by {
                        assert(all[j].name@ != all[i as int].name@);
                        assert(before.fresh(all[j]));
                    }
                    assert forall|j: int| i < j < n implies self.entry((#[trigger] all[j]).name@) == old(self).entry(all[j].name@) by {
                        assert(all[i as int].name@ != all[j].name@);
                    }
                    assert forall|j: int| 0 <= j < i implies if old(self).fresh(#[trigger] all[j]) {
                        self.entry(all[j].name@) == old(self).entry(all[j].name@)
                    } else {
                        is_refreshed(self.entry(all[j].name@)->Some_0, all[j], corpora@, table@)
                    } by {
                        assert(all[j].name@ != all[i as int].name@);
                    }
                }
            }
            i += 1;
        }
        let ghost filled = *self;
        self.sort();
        proof {
            assert(all.take(n as int) =~= all);
            assert forall|j: int| 0 <= j < n implies self.fresh(#[trigger] all[j]) by {
                assert(filled.fresh(all[j]));
            }
            lemma_fresh_none_stale(*self, all);
        }
        computed
    }
}

} // verus!
