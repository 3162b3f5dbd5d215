//! The data model: metrics, positions, layouts and stats.

use vstd::prelude::*;
use crate::util::conv;
use crate::util::keys::Layout;
use crate::util::text::str_eq;

verus! {

pub type Row = u8;

pub type Col = u8;

pub type Finger = u16;

pub type Key = char;

pub type Position = (Row, Col, Finger);

/// A frequency: the exact ratio of two counts.
#[derive(Debug, PartialEq, Eq, Copy, Clone, Structural)]
pub struct Freq {
    pub num: u64,
    pub den: u64,
}

/// The ergonomic category of a typed trigram.
#[derive(Debug, PartialEq, Eq, Hash, Copy, Clone, Structural)]
pub enum Metric {
    Sfb,
    Sft,
    Sfr,
    Alt,
    AltSfs,
    Red,
    BadRed,
    RedSfs,
    BadRedSfs,
    InOne,
    OutOne,
    InRoll,
    OutRoll,
    Unknown,
}

/// How many metrics there are.
pub const METRIC_COUNT: usize = 14;

/// The metric at a position of the dense order, `Unknown` past its end.
pub open spec fn metric_at(i: int) -> Metric {
    if i == 0 {
        Metric::Sfb
    } else if i == 1 {
        Metric::Sft
    } else if i == 2 {
        Metric::Sfr
    } else if i == 3 {
        Metric::Alt
    } else if i == 4 {
        Metric::AltSfs
    } else if i == 5 {
        Metric::Red
    } else if i == 6 {
        Metric::BadRed
    } else if i == 7 {
        Metric::RedSfs
    } else if i == 8 {
        Metric::BadRedSfs
    } else if i == 9 {
        Metric::InOne
    } else if i == 10 {
        Metric::OutOne
    } else if i == 11 {
        Metric::InRoll
    } else if i == 12 {
        Metric::OutRoll
    } else {
        Metric::Unknown
    }
}

/// The metric that a configuration name stands for, if it is one of the
/// fourteen names.
pub open spec fn metric_of_name(s: Seq<char>) -> Option<Metric> {
    if s == "sfb"@ {
        Some(Metric::Sfb)
    } else if s == "sft"@ {
        Some(Metric::Sft)
    } else if s == "sfr"@ {
        Some(Metric::Sfr)
    } else if s == "alt"@ {
        Some(Metric::Alt)
    } else if s == "alt-sfs"@ {
        Some(Metric::AltSfs)
    } else if s == "red"@ {
        Some(Metric::Red)
    } else if s == "bad-red"@ {
        Some(Metric::BadRed)
    } else if s == "red-sfs"@ {
        Some(Metric::RedSfs)
    } else if s == "bad-red-sfs"@ {
        Some(Metric::BadRedSfs)
    } else if s == "inoneh"@ {
        Some(Metric::InOne)
    } else if s == "outoneh"@ {
        Some(Metric::OutOne)
    } else if s == "inroll"@ {
        Some(Metric::InRoll)
    } else if s == "outroll"@ {
        Some(Metric::OutRoll)
    } else if s == "unknown"@ {
        Some(Metric::Unknown)
    } else {
        None
    }
}

impl Metric {
    /// The position of the metric in the dense order.
    pub open spec fn index(self) -> int {
        match self {
            Metric::Sfb => 0,
            Metric::Sft => 1,
            Metric::Sfr => 2,
            Metric::Alt => 3,
            Metric::AltSfs => 4,
            Metric::Red => 5,
            Metric::BadRed => 6,
            Metric::RedSfs => 7,
            Metric::BadRedSfs => 8,
            Metric::InOne => 9,
            Metric::OutOne => 10,
            Metric::InRoll => 11,
            Metric::OutRoll => 12,
            Metric::Unknown => 13,
        }
    }

    /// Reads a metric name, or `None` where the text is not one.
    pub fn parse(s: &str) -> (r: Option<Metric>)
        ensures
            r == metric_of_name(s@),
    {
        if str_eq(s, "sfb") {
            Some(Metric::Sfb)
        } else if str_eq(s, "sft") {
            Some(Metric::Sft)
        } else if str_eq(s, "sfr") {
            Some(Metric::Sfr)
        } else if str_eq(s, "alt") {
            Some(Metric::Alt)
        } else if str_eq(s, "alt-sfs") {
            Some(Metric::AltSfs)
        } else if str_eq(s, "red") {
            Some(Metric::Red)
        } else if str_eq(s, "bad-red") {
            Some(Metric::BadRed)
        } else if str_eq(s, "red-sfs") {
            Some(Metric::RedSfs)
        } else if str_eq(s, "bad-red-sfs") {
            Some(Metric::BadRedSfs)
        } else if str_eq(s, "inoneh") {
            Some(Metric::InOne)
        } else if str_eq(s, "outoneh") {
            Some(Metric::OutOne)
        } else if str_eq(s, "inroll") {
            Some(Metric::InRoll)
        } else if str_eq(s, "outroll") {
            Some(Metric::OutRoll)
        } else if str_eq(s, "unknown") {
            Some(Metric::Unknown)
        } else {
            None
        }
    }

    /// The metric that a name stands for. The name must be one of the
    /// fourteen; `parse` tells whether it is.
    pub fn from_str(s: &str) -> (r: Self)
        requires
            metric_of_name(s@) is Some,
        ensures
            metric_of_name(s@) == Some(r),
    {
        match Metric::parse(s) {
            Some(m) => m,
            None => vstd::pervasive::unreached(),
        }
    }

    /// The position of the metric in the dense order, as a byte.
    #[inline]
    pub fn pack(self) -> (r: u8)
        ensures
            r == self.index(),
            r < METRIC_COUNT,
    {
        match self {
            Metric::Sfb => 0,
            Metric::Sft => 1,
            Metric::Sfr => 2,
            Metric::Alt => 3,
            Metric::AltSfs => 4,
            Metric::Red => 5,
            Metric::BadRed => 6,
            Metric::RedSfs => 7,
            Metric::BadRedSfs => 8,
            Metric::InOne => 9,
            Metric::OutOne => 10,
            Metric::InRoll => 11,
            Metric::OutRoll => 12,
            Metric::Unknown => 13,
        }
    }

    /// The metric at a position of the dense order.
    #[inline]
    pub fn unpack(num: u8) -> (r: Self)
        requires
            num < METRIC_COUNT,
        ensures
            r == metric_at(num as int),
            r.index() == num,
    {
        match num {
            0 => Self::Sfb,
            1 => Self::Sft,
            2 => Self::Sfr,
            3 => Self::Alt,
            4 => Self::AltSfs,
            5 => Self::Red,
            6 => Self::BadRed,
            7 => Self::RedSfs,
            8 => Self::BadRedSfs,
            9 => Self::InOne,
            10 => Self::OutOne,
            11 => Self::InRoll,
            12 => Self::OutRoll,
            _ => Self::Unknown,
        }
    }
}

/// Packing a metric and unpacking the byte gives the metric back.
pub proof fn lemma_metric_unpack_pack(m: Metric)
    ensures
        0 <= m.index() < METRIC_COUNT,
        metric_at(m.index()) == m,
{
}

/// How many finger buckets a usage holds: ten fingers and the two hands.
pub const FINGER_COUNT: usize = 12;

/// The bucket of the left hand: fingers 0 to 4.
pub const LEFT_HAND: usize = 10;

/// The bucket of the right hand: every other finger.
pub const RIGHT_HAND: usize = 11;

/// Why a corpus gives no frequencies.
#[derive(Debug, PartialEq, Eq, Copy, Clone, Structural)]
pub enum StatError {
    /// Nothing was counted, so there is nothing to divide by.
    ZeroTotal,
    /// The counts add up to more than a 64-bit number holds.
    TooLarge,
}

/// The sum of a sequence of counts.
pub open spec fn total(counts: Seq<u64>) -> int
    decreases counts.len(),
{
    if counts.len() == 0 {
        0
    } else {
        total(counts.drop_last()) + counts.last()
    }
}

/// The sum of the numerators of a sequence of frequencies.
pub open spec fn num_total(freqs: Seq<Freq>) -> int
    decreases freqs.len(),
{
    if freqs.len() == 0 {
        0
    } else {
        num_total(freqs.drop_last()) + freqs.last().num
    }
}

/// Whether `freqs` are the counts, each over their sum.
pub open spec fn is_normalized(freqs: Seq<Freq>, counts: Seq<u64>) -> bool {
    &&& freqs.len() == counts.len()
    &&& forall|i: int|
        0 <= i < freqs.len() ==> #[trigger] freqs[i] == (Freq {
            num: counts[i],
            den: total(counts) as u64,
        })
}

/// The sum of a prefix of the counts is at most the sum of them all.
pub proof fn lemma_total_prefix(counts: Seq<u64>, n: int)
    requires
        0 <= n <= counts.len(),
    ensures
        0 <= total(counts.take(n)) <= total(counts),
    decreases counts.len() - n,
{
    if n == counts.len() {
        assert(counts.take(n) =~= counts);
        lemma_total_nonnegative(counts);
    } else {
        lemma_total_prefix(counts, n + 1);
        assert(counts.take(n + 1).drop_last() =~= counts.take(n));
        lemma_total_nonnegative(counts.take(n));
    }
}

/// A sum of counts is not negative.
pub proof fn lemma_total_nonnegative(counts: Seq<u64>)
    ensures
        0 <= total(counts),
    decreases counts.len(),
{
    if counts.len() > 0 {
        lemma_total_nonnegative(counts.drop_last());
    }
}

/// Frequencies that are counts over their sum add up to exactly one: their
/// numerators add up to the denominator.
pub proof fn lemma_normalized_sum(freqs: Seq<Freq>, counts: Seq<u64>)
    requires
        is_normalized(freqs, counts),
    ensures
        num_total(freqs) == total(counts),
{
    lemma_num_total_prefix(freqs, counts, freqs.len() as int);
    assert(freqs.take(freqs.len() as int) =~= freqs);
    assert(counts.take(counts.len() as int) =~= counts);
}

proof fn lemma_num_total_prefix(freqs: Seq<Freq>, counts: Seq<u64>, n: int)
    requires
        freqs.len() == counts.len(),
        0 <= n <= freqs.len(),
        forall|i: int| 0 <= i < freqs.len() ==> (#[trigger] freqs[i]).num == counts[i],
    ensures
        num_total(freqs.take(n)) == total(counts.take(n)),
    decreases n,
{
    if n > 0 {
        lemma_num_total_prefix(freqs, counts, n - 1);
        assert(freqs.take(n).drop_last() =~= freqs.take(n - 1));
        assert(counts.take(n).drop_last() =~= counts.take(n - 1));
    }
}

/// The frequencies of a sequence of counts: each count over their sum.
pub fn normalize(counts: &Vec<u64>) -> (r: Result<Vec<Freq>, StatError>)
    ensures
        match r {
            Ok(freqs) => 0 < total(counts@) <= u64::MAX && is_normalized(freqs@, counts@),
            Err(StatError::ZeroTotal) => total(counts@) == 0,
            Err(StatError::TooLarge) => total(counts@) > u64::MAX,
        },
{
    let mut sum: u64 = 0;
    let mut i: usize = 0;
    while i < counts.len()
        invariant
            i <= counts.len(),
            sum == total(counts@.take(i as int)),
        decreases counts.len() - i,
    {
        proof {
            assert(counts@.take(i + 1).drop_last() =~= counts@.take(i as int));
            lemma_total_prefix(counts@, i + 1);
        }
        match sum.checked_add(counts[i]) {
            Some(next) => {
                sum = next;
            },
            None => {
                return Err(StatError::TooLarge);
            },
        }
        i += 1;
    }
    assert(counts@.take(counts@.len() as int) =~= counts@);
    if sum == 0 {
        return Err(StatError::ZeroTotal);
    }
    let mut freqs: Vec<Freq> = Vec::new();
    let mut j: usize = 0;
    while j < counts.len()
        invariant
            j <= counts.len(),
            sum == total(counts@),
            freqs@.len() == j,
            forall|k: int| 0 <= k < j ==> #[trigger] freqs@[k] == (Freq { num: counts@[k], den: sum }),
        decreases counts.len() - j,
    {
        freqs.push(Freq { num: counts[j], den: sum });
        j += 1;
    }
    Ok(freqs)
}

/// The frequency of each metric over a corpus, in the dense order of the
/// metrics.
pub struct Stat {
    freqs: Vec<Freq>,
}

impl View for Stat {
    type V = Seq<Freq>;

    closed spec fn view(&self) -> Seq<Freq> {
        self.freqs@
    }
}

impl Stat {
    #[verifier::type_invariant]
    spec fn inv(self) -> bool {
        self.freqs@.len() == METRIC_COUNT
    }

    /// The stat with the given frequencies, one for each metric in the dense
    /// order, or `None` unless there are fourteen.
    pub fn new(freqs: Vec<Freq>) -> (r: Option<Self>)
        ensures
            match r {
                Some(stat) => freqs@.len() == METRIC_COUNT && stat@ == freqs@,
                None => freqs@.len() != METRIC_COUNT,
            },
    {
        if freqs.len() == METRIC_COUNT {
            Some(Stat { freqs })
        } else {
            None
        }
    }

    /// The frequency of a metric.
    pub fn get(&self, metric: Metric) -> (r: Freq)
        ensures
            self@.len() == METRIC_COUNT,
            r == self@[metric.index()],
    {
        proof {
            use_type_invariant(self);
        }
        self.freqs[metric.pack() as usize]
    }

    /// The frequencies, one for each metric in the dense order.
    pub fn freqs(&self) -> (r: &Vec<Freq>)
        ensures
            r@ == self@,
            r@.len() == METRIC_COUNT,
    {
        proof {
            use_type_invariant(self);
        }
        &self.freqs
    }
}

/// The frequency of each finger over a corpus: the ten fingers, then the
/// left hand and the right hand.
pub struct FingerUsage {
    freqs: Vec<Freq>,
}

impl View for FingerUsage {
    type V = Seq<Freq>;

    closed spec fn view(&self) -> Seq<Freq> {
        self.freqs@
    }
}

impl FingerUsage {
    #[verifier::type_invariant]
    spec fn inv(self) -> bool {
        self.freqs@.len() == FINGER_COUNT
    }

    /// The usage with the given frequencies, or `None` unless there are
    /// twelve.
    pub fn new(freqs: Vec<Freq>) -> (r: Option<Self>)
        ensures
            match r {
                Some(usage) => freqs@.len() == FINGER_COUNT && usage@ == freqs@,
                None => freqs@.len() != FINGER_COUNT,
            },
    {
        if freqs.len() == FINGER_COUNT {
            Some(FingerUsage { freqs })
        } else {
            None
        }
    }

    /// The frequency of a finger or hand, or `None` where there is no such
    /// bucket.
    pub fn get(&self, finger: Finger) -> (r: Option<Freq>)
        ensures
            self@.len() == FINGER_COUNT,
            r == (if finger < FINGER_COUNT {
                Some(self@[finger as int])
            } else {
                None
            }),
    {
        proof {
            use_type_invariant(self);
        }
        if (finger as usize) < FINGER_COUNT {
            Some(self.freqs[finger as usize])
        } else {
            None
        }
    }
}

impl Metric {
    /// One zeroed counter for each metric, in the dense order.
    pub fn new_counter() -> (r: Vec<u64>)
        ensures
            r@.len() == METRIC_COUNT,
            forall|i: int| 0 <= i < r@.len() ==> r@[i] == 0,
            total(r@) == 0,
    {
        let mut counter: Vec<u64> = Vec::new();
        let mut i: usize = 0;
        while i < METRIC_COUNT
            invariant
                i <= METRIC_COUNT,
                counter@.len() == i,
                forall|k: int| 0 <= k < counter@.len() ==> counter@[k] == 0,
                total(counter@) == 0,
            decreases METRIC_COUNT - i,
        {
            let ghost before = counter@;
            counter.push(0);
            assert(counter@.drop_last() =~= before);
            i += 1;
        }
        counter
    }

    /// The frequency of each metric: its counter over the sum of the
    /// fourteen. The counter holds one count for each metric.
    pub fn normalize_counter(counter: &Vec<u64>) -> (r: Result<Stat, StatError>)
        requires
            counter@.len() == METRIC_COUNT,
        ensures
            match r {
                Ok(stat) => {
                    &&& 0 < total(counter@) <= u64::MAX
                    &&& is_normalized(stat@, counter@)
                    &&& num_total(stat@) == total(counter@)
                },
                Err(StatError::ZeroTotal) => total(counter@) == 0,
                Err(StatError::TooLarge) => total(counter@) > u64::MAX,
            },
    {
        match normalize(counter) {
            Ok(freqs) => {
                proof {
                    lemma_normalized_sum(freqs@, counter@);
                }
                Ok(Stat { freqs })
            },
            Err(e) => Err(e),
        }
    }
}

/// A layout as it is kept: its name, its owner, its board shape, its keys,
/// and the checksum of its keys.
pub struct LayoutConfig {
    pub name: String,
    pub user: u64,
    pub board: String,
    pub keys: Layout,
    pub sum: u64,
}

/// A layout as it is persisted: the keys as packed text.
#[derive(Debug)]
pub struct JsonLayoutConfig {
    pub user: u64,
    pub board: String,
    pub keys: String,
}

impl LayoutConfig {
    /// The layout with the given fields, and the checksum of its packed
    /// keys.
    pub fn new(name: String, user: u64, board: String, keys: Layout) -> (r: Self)
        ensures
            r.name == name,
            r.user == user,
            r.board == board,
            r.keys == keys,
    {
        let packed = conv::layout::pack(&keys);
        let sum = conv::hash_keys(packed.as_str());
        LayoutConfig { name, user, board, keys, sum }
    }

    /// The layout that a persisted record spells, with the checksum of the
    /// packed keys as they were persisted; `None` where the keys are not a
    /// packed assignment.
    pub fn from_json(name: String, json: &JsonLayoutConfig) -> (r: Option<Self>)
        ensures
            match r {
                Some(ll) => {
                    &&& ll.name == name
                    &&& ll.user == json.user
                    &&& ll.board@ == json.board@
                    &&& conv::layout::unpack_spec(json.keys@) == Some(ll.keys@)
                },
                None => conv::layout::unpack_spec(json.keys@) is None,
            },
    {
        match conv::layout::try_unpack(json.keys.as_str()) {
            Some(keys) => {
                let sum = conv::hash_keys(json.keys.as_str());
                Some(LayoutConfig { name, user: json.user, board: json.board.clone(), keys, sum })
            },
            None => None,
        }
    }

    /// The record to persist: the owner, the board shape and the packed keys.
    pub fn to_json(&self) -> (r: JsonLayoutConfig)
        ensures
            r.user == self.user,
            r.board@ == self.board@,
            r.keys@ == conv::layout::pack_spec(self.keys@),
    {
        JsonLayoutConfig {
            user: self.user,
            board: self.board.clone(),
            keys: conv::layout::pack(&self.keys),
        }
    }
}

} // verus!
