//! A stat as text: three symbols a metric, the metrics in their dense order.

use vstd::prelude::*;
use crate::util::conv::base64;
use crate::util::conv::freq;
use crate::util::model::{Freq, Stat, METRIC_COUNT};
use crate::util::text::{chars_of, string_of};

verus! {

/// How many symbols one frequency takes.
pub const INTERVAL: usize = 3;

/// How many symbols a packed stat takes.
pub const PACKED_LEN: usize = 42;

/// The packed text of fourteen frequencies.
pub open spec fn pack_spec(freqs: Seq<Freq>) -> Seq<char> {
    Seq::new(PACKED_LEN as nat, |k: int| freq::pack_spec(freqs[k / 3])[k % 3])
}

/// Whether the text is a packed stat: 42 symbols of the alphabet.
pub open spec fn is_packed(s: Seq<char>) -> bool {
    &&& s.len() == PACKED_LEN
    &&& forall|k: int| 0 <= k < s.len() ==> base64::is_symbol(#[trigger] s[k])
}

/// The frequencies that a packed stat spells.
pub open spec fn decode(s: Seq<char>) -> Seq<Freq> {
    Seq::new(
        METRIC_COUNT as nat,
        |i: int| freq::unpack_spec(s[3 * i], s[3 * i + 1], s[3 * i + 2]),
    )
}

/// The frequencies that a text spells, or `None` where the text is not a
/// packed stat.
pub open spec fn unpack_spec(s: Seq<char>) -> Option<Seq<Freq>> {
    if is_packed(s) {
        Some(decode(s))
    } else {
        None
    }
}

/// The packed text of a stat.
pub fn pack(stats: &Stat) -> (r: String)
    ensures
        r@ == pack_spec(stats@),
{
    let freqs = stats.freqs();
    let mut packed: Vec<char> = Vec::new();
    let mut i: usize = 0;
    while i < METRIC_COUNT
        invariant
            i <= METRIC_COUNT,
            freqs@ == stats@,
            freqs@.len() == METRIC_COUNT,
            packed@.len() == 3 * i,
            forall|k: int| 0 <= k < packed@.len() ==> #[trigger] packed@[k] == pack_spec(stats@)[k],
        decreases METRIC_COUNT - i,
    {
        let symbols = freq::pack(freqs[i]);
        let ghost before = packed@;
        packed.push(symbols[0]);
        packed.push(symbols[1]);
        packed.push(symbols[2]);
        proof {
            assert forall|k: int| 0 <= k < packed@.len() implies #[trigger] packed@[k] == pack_spec(
                stats@,
            )[k] by {
                if k < 3 * i {
                    assert(packed@[k] == before[k]);
                } else {
                    assert(k / 3 == i);
                }
            }
        }
        i += 1;
    }
    assert(packed@ =~= pack_spec(stats@));
    string_of(&packed)
}

/// The stat that a text spells, or `None` where the text is not a packed
/// stat.
pub fn try_unpack(packed: &str) -> (r: Option<Stat>)
    ensures
        match r {
            Some(stat) => unpack_spec(packed@) == Some(stat@),
            None => unpack_spec(packed@) is None,
        },
{
    let chars = chars_of(packed);
    if chars.len() != PACKED_LEN {
        return None;
    }
    let mut k: usize = 0;
    while k < chars.len()
        invariant
            k <= chars.len(),
            chars@ == packed@,
            forall|j: int| 0 <= j < k ==> base64::is_symbol(#[trigger] chars@[j]),
        decreases chars.len() - k,
    {
        if !base64::is_alphabet(chars[k]) {
            return None;
        }
        k += 1;
    }
    let mut freqs: Vec<Freq> = Vec::new();
    let mut i: usize = 0;
    while i < METRIC_COUNT
        invariant
            i <= METRIC_COUNT,
            chars@ == packed@,
            is_packed(chars@),
            freqs@.len() == i,
            forall|j: int| 0 <= j < i ==> #[trigger] freqs@[j] == decode(chars@)[j],
        decreases METRIC_COUNT - i,
    {
        let chunk = vstd::slice::slice_subrange(chars.as_slice(), 3 * i, 3 * i + 3);
        freqs.push(freq::unpack(chunk));
        i += 1;
    }
    assert(freqs@ =~= decode(chars@));
    Stat::new(freqs)
}

/// The stat that a packed text spells. The text must be a packed stat;
/// `try_unpack` tells whether it is.
pub fn unpack(packed: &str) -> (r: Stat)
    requires
        unpack_spec(packed@) is Some,
    ensures
        unpack_spec(packed@) == Some(r@),
{
    match try_unpack(packed) {
        Some(stat) => stat,
        None => vstd::pervasive::unreached(),
    }
}

/// The packed text of fourteen frequencies is a packed stat, and where a
/// frequency rounds to fewer than 2^18 units, what it spells for that metric
/// is that number of units over 100000: within half a unit of the frequency
/// that was packed.
pub proof fn lemma_unpack_pack(freqs: Seq<Freq>, i: int)
    requires
        freqs.len() == METRIC_COUNT,
        0 <= i < METRIC_COUNT,
        freqs[i].den > 0,
        freq::quantize(freqs[i]) < 262144,
    ensures
        is_packed(pack_spec(freqs)),
        ({
            let g = unpack_spec(pack_spec(freqs)).unwrap()[i];
            let f = freqs[i];
            &&& g.den == freq::UNITS
            &&& g.num == freq::quantize(f)
            &&& 2 * (g.num * f.den - f.num * freq::UNITS) <= f.den
            &&& 2 * (f.num * freq::UNITS - g.num * f.den) < f.den
        }),
{
    let s = pack_spec(freqs);
    assert forall|k: int| 0 <= k < s.len() implies base64::is_symbol(#[trigger] s[k]) by {
        lemma_symbols(freq::quantize(freqs[k / 3]));
    }
    freq::lemma_unpack_pack_close(freqs[i]);
    assert((3 * i) / 3 == i && (3 * i + 1) / 3 == i && (3 * i + 2) / 3 == i);
}

/// The three symbols of any number of units are symbols of the alphabet.
proof fn lemma_symbols(units: int)
    requires
        0 <= units,
    ensures
        base64::is_symbol(freq::symbols_of(units)[0]),
        base64::is_symbol(freq::symbols_of(units)[1]),
        base64::is_symbol(freq::symbols_of(units)[2]),
{
    base64::lemma_unpack_pack((units / 4096) % 64);
    base64::lemma_unpack_pack((units / 64) % 64);
    base64::lemma_unpack_pack(units % 64);
}

} // verus!
