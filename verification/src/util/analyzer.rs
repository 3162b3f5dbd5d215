//! The classifier and the aggregator: which metric a trigram falls under on
//! a layout, and how often each metric and each finger occurs in a corpus.

use vstd::prelude::*;
use crate::util::keys::Layout;
use crate::util::model::{
    lemma_total_nonnegative, total, Finger, FingerUsage, Freq, LayoutConfig, Metric, Position,
    Stat, StatError, FINGER_COUNT, METRIC_COUNT, metric_at, num_total,
};

verus! {

/// Three characters typed in a row.
pub type Trigram = [char; 3];

/// One typed character.
pub type Monogram = [char; 1];

/// The word boundary marker: a gram that holds it is not classified.
pub const SPACE: char = ' ';

/// How many slots the table has: one for each triple of four-bit fingers.
pub const TABLE_SIZE: usize = 4096;

/// The metric of each triple of fingers, at the slot
/// `first * 256 + second * 16 + third`.
pub struct Table {
    slots: Vec<Metric>,
}

impl View for Table {
    type V = Seq<Metric>;

    closed spec fn view(&self) -> Seq<Metric> {
        self.slots@
    }
}

impl Table {
    #[verifier::type_invariant]
    spec fn inv(self) -> bool {
        self.slots@.len() == TABLE_SIZE
    }

    /// The table whose every slot is `Unknown`.
    pub fn new() -> (r: Self)
        ensures
            r@.len() == TABLE_SIZE,
            forall|i: int| 0 <= i < TABLE_SIZE ==> r@[i] == Metric::Unknown,
    {
        let mut slots: Vec<Metric> = Vec::new();
        let mut i: usize = 0;
        while i < TABLE_SIZE
            invariant
                i <= TABLE_SIZE,
                slots@.len() == i,
                forall|k: int| 0 <= k < i ==> slots@[k] == Metric::Unknown,
            decreases TABLE_SIZE - i,
        {
            slots.push(Metric::Unknown);
            i += 1;
        }
        Table { slots }
    }

    /// The metric at a slot.
    pub fn get(&self, slot: Finger) -> (r: Metric)
        requires
            slot < TABLE_SIZE,
        ensures
            self@.len() == TABLE_SIZE,
            r == self@[slot as int],
    {
        proof {
            use_type_invariant(self);
        }
        self.slots[slot as usize]
    }

    /// The table with one slot changed.
    pub fn with(self, slot: Finger, metric: Metric) -> (r: Self)
        requires
            slot < TABLE_SIZE,
        ensures
            r@ == self@.update(slot as int, metric),
            r@.len() == TABLE_SIZE,
    {
        proof {
            use_type_invariant(&self);
        }
        let Table { mut slots } = self;
        slots.set(slot as usize, metric);
        Table { slots }
    }
}

/// The slot of a triple of fingers, or `None` where one of them does not fit
/// in four bits.
pub open spec fn finger_hash(f0: Finger, f1: Finger, f2: Finger) -> Option<int> {
    if f0 < 16 && f1 < 16 && f2 < 16 {
        Some(f0 * 256 + f1 * 16 + f2)
    } else {
        None
    }
}

/// The slot of three characters on a layout, or `None` where one of them is
/// not assigned or sits on a finger that does not fit in four bits.
pub open spec fn gram_hash(keys: Map<char, Position>, g0: char, g1: char, g2: char) -> Option<int> {
    if keys.contains_key(g0) && keys.contains_key(g1) && keys.contains_key(g2) {
        finger_hash(keys[g0].2, keys[g1].2, keys[g2].2)
    } else {
        None
    }
}

/// Whether a trigram holds the word boundary marker.
pub open spec fn is_boundary(gram: Seq<char>) -> bool {
    gram[0] == SPACE || gram[1] == SPACE || gram[2] == SPACE
}

/// Whether two of the three characters are the same.
pub open spec fn has_repeat(gram: Seq<char>) -> bool {
    gram[0] == gram[1] || gram[1] == gram[2] || gram[0] == gram[2]
}

/// The metric of a trigram on a layout: none for a gram with the word
/// boundary marker; the same-finger bucket where a character repeats;
/// `Unknown` where a character has no slot; else what the table holds.
pub open spec fn classify_spec(
    gram: Seq<char>,
    keys: Map<char, Position>,
    table: Seq<Metric>,
) -> Option<Metric> {
    if is_boundary(gram) {
        None
    } else if has_repeat(gram) {
        Some(Metric::Sfr)
    } else {
        match gram_hash(keys, gram[0], gram[1], gram[2]) {
            None => Some(Metric::Unknown),
            Some(slot) => Some(table[slot]),
        }
    }
}

/// How often a metric occurs: the counts of the trigrams that fall under it.
pub open spec fn metric_total(
    grams: Seq<(Trigram, u64)>,
    keys: Map<char, Position>,
    table: Seq<Metric>,
    metric: Metric,
) -> int
    decreases grams.len(),
{
    if grams.len() == 0 {
        0
    } else {
        metric_total(grams.drop_last(), keys, table, metric) + (if classify_spec(
            grams.last().0@,
            keys,
            table,
        ) == Some(metric) {
            grams.last().1 as int
        } else {
            0
        })
    }
}

/// The counts of all the trigrams that are classified.
pub open spec fn counted_total(
    grams: Seq<(Trigram, u64)>,
    keys: Map<char, Position>,
    table: Seq<Metric>,
) -> int
    decreases grams.len(),
{
    if grams.len() == 0 {
        0
    } else {
        counted_total(grams.drop_last(), keys, table) + (if classify_spec(
            grams.last().0@,
            keys,
            table,
        ) is Some {
            grams.last().1 as int
        } else {
            0
        })
    }
}

/// The counts of the characters that sit on a finger.
pub open spec fn finger_total(grams: Seq<(Monogram, u64)>, keys: Map<char, Position>, finger: int) -> int
    decreases grams.len(),
{
    if grams.len() == 0 {
        0
    } else {
        finger_total(grams.drop_last(), keys, finger) + (if keys.contains_key(grams.last().0@[0])
            && keys[grams.last().0@[0]].2 == finger {
            grams.last().1 as int
        } else {
            0
        })
    }
}

/// The counts of the characters that sit on a finger of the left hand.
pub open spec fn left_total(grams: Seq<(Monogram, u64)>, keys: Map<char, Position>) -> int
    decreases grams.len(),
{
    if grams.len() == 0 {
        0
    } else {
        left_total(grams.drop_last(), keys) + (if keys.contains_key(grams.last().0@[0])
            && keys[grams.last().0@[0]].2 < 5 {
            grams.last().1 as int
        } else {
            0
        })
    }
}

/// The counts of all the characters that the layout assigns.
pub open spec fn typed_total(grams: Seq<(Monogram, u64)>, keys: Map<char, Position>) -> int
    decreases grams.len(),
{
    if grams.len() == 0 {
        0
    } else {
        typed_total(grams.drop_last(), keys) + (if keys.contains_key(grams.last().0@[0]) {
            grams.last().1 as int
        } else {
            0
        })
    }
}

/// The frequencies of the metrics over a corpus: for each metric the counts
/// of the trigrams that fall under it, over the counts of all that are
/// classified. There are none where nothing is counted, nor where the counts
/// add up to more than a 64-bit number holds.
pub open spec fn stat_of(
    grams: Seq<(Trigram, u64)>,
    keys: Map<char, Position>,
    table: Seq<Metric>,
) -> Result<Seq<Freq>, StatError> {
    let sum = counted_total(grams, keys, table);
    if sum == 0 {
        Err(StatError::ZeroTotal)
    } else if sum > u64::MAX {
        Err(StatError::TooLarge)
    } else {
        Ok(
            Seq::new(
                METRIC_COUNT as nat,
                |k: int|
                    Freq {
                        num: metric_total(grams, keys, table, metric_at(k)) as u64,
                        den: sum as u64,
                    },
            ),
        )
    }
}

/// The slot of three characters on a layout.
#[inline]
pub fn get_finger_hash(layout: &Layout, gram0: char, gram1: char, gram2: char) -> (r: Option<Finger>)
    ensures
        match r {
            Some(slot) => gram_hash(layout@, gram0, gram1, gram2) == Some(slot as int) && slot
                < TABLE_SIZE,
            None => gram_hash(layout@, gram0, gram1, gram2) is None,
        },
{
    let finger0 = match layout.get(gram0) {
        Some(p) => p.2,
        None => {
            return None;
        },
    };
    let finger1 = match layout.get(gram1) {
        Some(p) => p.2,
        None => {
            return None;
        },
    };
    let finger2 = match layout.get(gram2) {
        Some(p) => p.2,
        None => {
            return None;
        },
    };
    if finger0 < 16 && finger1 < 16 && finger2 < 16 {
        Some(finger0 * 256 + finger1 * 16 + finger2)
    } else {
        None
    }
}

/// The metric of a trigram on a layout, or `None` for a gram that holds the
/// word boundary marker. The same trigram, layout and table always give the
/// same answer.
pub fn classify(gram: &Trigram, layout: &Layout, table: &Table) -> (r: Option<Metric>)
    ensures
        r == classify_spec(gram@, layout@, table@),
{
    let gram0 = gram[0];
    let gram1 = gram[1];
    let gram2 = gram[2];
    if gram0 == SPACE || gram1 == SPACE || gram2 == SPACE {
        return None;
    }
    if gram0 == gram1 || gram1 == gram2 || gram0 == gram2 {
        return Some(Metric::Sfr);
    }
    match get_finger_hash(layout, gram0, gram1, gram2) {
        None => Some(Metric::Unknown),
        Some(slot) => Some(table.get(slot)),
    }
}

/// Each total over a corpus is at least the total over its first `n` grams,
/// and none is negative.
pub proof fn lemma_counted_prefix(
    grams: Seq<(Trigram, u64)>,
    keys: Map<char, Position>,
    table: Seq<Metric>,
    n: int,
)
    requires
        0 <= n <= grams.len(),
    ensures
        0 <= counted_total(grams.take(n), keys, table) <= counted_total(grams, keys, table),
    decreases grams.len() - n,
{
    if n == grams.len() {
        assert(grams.take(n) =~= grams);
        lemma_counted_nonnegative(grams, keys, table);
    } else {
        lemma_counted_prefix(grams, keys, table, n + 1);
        assert(grams.take(n + 1).drop_last() =~= grams.take(n));
        lemma_counted_nonnegative(grams.take(n), keys, table);
    }
}

proof fn lemma_counted_nonnegative(
    grams: Seq<(Trigram, u64)>,
    keys: Map<char, Position>,
    table: Seq<Metric>,
)
    ensures
        0 <= counted_total(grams, keys, table),
    decreases grams.len(),
{
    if grams.len() > 0 {
        lemma_counted_nonnegative(grams.drop_last(), keys, table);
    }
}

/// Changing one count changes the sum by the difference.
pub proof fn lemma_total_update(counts: Seq<u64>, k: int, v: u64)
    requires
        0 <= k < counts.len(),
    ensures
        total(counts.update(k, v)) == total(counts) - counts[k] + v,
    decreases counts.len(),
{
    let n = counts.len() - 1;
    if k == n {
        assert(counts.update(k, v).drop_last() =~= counts.drop_last());
    } else {
        lemma_total_update(counts.drop_last(), k, v);
        assert(counts.update(k, v).drop_last() =~= counts.drop_last().update(k, v));
    }
}

/// The frequency of each metric over a corpus of trigrams: for each metric
/// the counts of the trigrams that fall under it, over the counts of all
/// that are classified. The frequencies add up to exactly one.
pub fn trigrams(ll: &LayoutConfig, table: &Table, grams: &[(Trigram, u64)]) -> (r: Result<
    Stat,
    StatError,
>)
    ensures
        match r {
            Ok(stat) => stat_of(grams@, ll.keys@, table@) == Ok::<Seq<Freq>, StatError>(stat@)
                && num_total(stat@) == counted_total(grams@, ll.keys@, table@),
            Err(e) => stat_of(grams@, ll.keys@, table@) == Err::<Seq<Freq>, StatError>(e),
        },
{
    let mut counter = Metric::new_counter();
    let fingers = &ll.keys;
    let ghost keys = ll.keys@;
    let ghost tab = table@;
    let mut i: usize = 0;
    while i < grams.len()
        invariant
            i <= grams.len(),
            keys == ll.keys@,
            fingers@ == keys,
            tab == table@,
            counter@.len() == METRIC_COUNT,
            total(counter@) == counted_total(grams@.take(i as int), keys, tab),
            forall|k: int|
                0 <= k < METRIC_COUNT ==> #[trigger] counter@[k] == metric_total(
                    grams@.take(i as int),
                    keys,
                    tab,
                    metric_at(k),
                ),
        decreases grams.len() - i,
    {
        let gram = &grams[i].0;
        let count = grams[i].1;
        proof {
            assert(grams@.take(i + 1).drop_last() =~= grams@.take(i as int));
            assert(grams@.take(i + 1).last() == grams@[i as int]);
            lemma_counted_prefix(grams@, keys, tab, i + 1);
        }
        match classify(gram, fingers, table) {
            None => {},
            Some(metric) => {
                let slot = metric.pack() as usize;
                let ghost before = counter@;
                proof {
                    lemma_total_update(before, slot as int, (before[slot as int] + count) as u64);
                    lemma_bucket_below_total(before, slot as int);
                }
                match counter[slot].checked_add(count) {
                    Some(next) => {
                        counter.set(slot, next);
                    },
                    None => {
                        return Err(StatError::TooLarge);
                    },
                }
                proof {
                    assert forall|k: int| 0 <= k < METRIC_COUNT implies #[trigger] counter@[k]
                        == metric_total(grams@.take(i + 1), keys, tab, metric_at(k)) by {
                        assert(before[k] == metric_total(
                            grams@.take(i as int),
                            keys,
                            tab,
                            metric_at(k),
                        ));
                        assert(metric_at(k) == metric <==> k == slot);
                    }
                }
            },
        }
        i += 1;
    }
    proof {
        assert(grams@.take(grams@.len() as int) =~= grams@);
        lemma_counted_prefix(grams@, keys, tab, 0);
    }
    match Metric::normalize_counter(&counter) {
        Ok(stat) => {
            assert(stat@ =~= stat_of(grams@, keys, tab)->Ok_0);
            Ok(stat)
        },
        Err(e) => Err(e),
    }
}

/// No count is more than the sum of the counts.
pub proof fn lemma_bucket_below_total(counts: Seq<u64>, k: int)
    requires
        0 <= k < counts.len(),
    ensures
        counts[k] <= total(counts),
    decreases counts.len(),
{
    lemma_total_nonnegative(counts.drop_last());
    if k < counts.len() - 1 {
        lemma_bucket_below_total(counts.drop_last(), k);
    }
}

/// Each total over a corpus of monograms is at least the total over its
/// first `n` grams, none is negative, and the total of a finger or of the
/// left hand is at most the total of all.
pub proof fn lemma_typed_prefix(grams: Seq<(Monogram, u64)>, keys: Map<char, Position>, n: int)
    requires
        0 <= n <= grams.len(),
    ensures
        0 <= typed_total(grams.take(n), keys) <= typed_total(grams, keys),
    decreases grams.len() - n,
{
    if n == grams.len() {
        assert(grams.take(n) =~= grams);
        lemma_typed_bounds(grams, keys, 0);
    } else {
        lemma_typed_prefix(grams, keys, n + 1);
        assert(grams.take(n + 1).drop_last() =~= grams.take(n));
        lemma_typed_bounds(grams.take(n), keys, 0);
    }
}

/// The total of a finger and the total of the left hand lie between zero and
/// the total of all the characters that the layout assigns.
pub proof fn lemma_typed_bounds(grams: Seq<(Monogram, u64)>, keys: Map<char, Position>, finger: int)
    ensures
        0 <= finger_total(grams, keys, finger) <= typed_total(grams, keys),
        0 <= left_total(grams, keys) <= typed_total(grams, keys),
    decreases grams.len(),
{
    if grams.len() > 0 {
        lemma_typed_bounds(grams.drop_last(), keys, finger);
    }
}

/// The frequency of each finger over a corpus of monograms: for each of the
/// ten fingers the counts of the characters that sit on it, then those of
/// the left hand (fingers 0 to 4) and those of the right hand (the rest),
/// each over the counts of all the characters that the layout assigns.
pub fn fingers_usage(ll: &LayoutConfig, grams: &[(Monogram, u64)]) -> (r: Result<
    FingerUsage,
    StatError,
>)
    ensures
        match r {
            Ok(usage) => {
                let sum = typed_total(grams@, ll.keys@);
                let left = left_total(grams@, ll.keys@);
                &&& 0 < sum <= u64::MAX
                &&& usage@.len() == FINGER_COUNT
                &&& forall|f: int|
                    0 <= f < 10 ==> #[trigger] usage@[f] == (Freq {
                        num: finger_total(grams@, ll.keys@, f) as u64,
                        den: sum as u64,
                    })
                &&& usage@[10] == (Freq { num: left as u64, den: sum as u64 })
                &&& usage@[11] == (Freq { num: (sum - left) as u64, den: sum as u64 })
            },
            Err(StatError::ZeroTotal) => typed_total(grams@, ll.keys@) == 0,
            Err(StatError::TooLarge) => typed_total(grams@, ll.keys@) > u64::MAX,
        },
{
    let ghost keys = ll.keys@;
    let mut fingers: Vec<u64> = Vec::new();
    let mut f: usize = 0;
    while f < 10
        invariant
            f <= 10,
            fingers@.len() == f,
            forall|k: int| 0 <= k < f ==> fingers@[k] == 0,
        decreases 10 - f,
    {
        fingers.push(0);
        f += 1;
    }
    let mut left: u64 = 0;
    let mut sum: u64 = 0;
    let mut i: usize = 0;
    while i < grams.len()
        invariant
            i <= grams.len(),
            keys == ll.keys@,
            fingers@.len() == 10,
            sum == typed_total(grams@.take(i as int), keys),
            left == left_total(grams@.take(i as int), keys),
            forall|k: int|
                0 <= k < 10 ==> #[trigger] fingers@[k] == finger_total(grams@.take(i as int), keys, k),
        decreases grams.len() - i,
    {
        let gram = grams[i].0[0];
        let count = grams[i].1;
        proof {
            assert(grams@.take(i + 1).drop_last() =~= grams@.take(i as int));
            assert(grams@.take(i + 1).last() == grams@[i as int]);
            lemma_typed_prefix(grams@, keys, i + 1);
            lemma_typed_bounds(grams@.take(i as int), keys, 0);
        }
        match ll.keys.get(gram) {
            None => {},
            Some(pos) => {
                let finger = pos.2;
                match sum.checked_add(count) {
                    Some(next) => {
                        sum = next;
                    },
                    None => {
                        return Err(StatError::TooLarge);
                    },
                }
                if finger < 5 {
                    left = left + count;
                }
                if finger < 10 {
                    proof {
                        lemma_typed_bounds(grams@.take(i as int), keys, finger as int);
                    }
                    let next = fingers[finger as usize] + count;
                    fingers.set(finger as usize, next);
                }
            },
        }
        i += 1;
    }
    proof {
        assert(grams@.take(grams@.len() as int) =~= grams@);
        lemma_typed_bounds(grams@, keys, 0);
    }
    if sum == 0 {
        return Err(StatError::ZeroTotal);
    }
    let mut freqs: Vec<Freq> = Vec::new();
    let mut k: usize = 0;
    while k < 10
        invariant
            k <= 10,
            fingers@.len() == 10,
            freqs@.len() == k,
            forall|j: int| 0 <= j < k ==> #[trigger] freqs@[j] == (Freq { num: fingers@[j], den: sum }),
        decreases 10 - k,
    {
        freqs.push(Freq { num: fingers[k], den: sum });
        k += 1;
    }
    freqs.push(Freq { num: left, den: sum });
    freqs.push(Freq { num: sum - left, den: sum });
    match FingerUsage::new(freqs) {
        Some(usage) => Ok(usage),
        None => vstd::pervasive::unreached(),
    }
}

} // verus!
