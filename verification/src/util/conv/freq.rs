//! A frequency as three symbols: its value in units of 1/100000, rounded to
//! the nearest, of which the low 18 bits are kept.

use vstd::prelude::*;
use crate::util::conv::base64;
use crate::util::model::Freq;

verus! {

/// How many units make a whole.
pub const UNITS: u64 = 100_000;

/// The frequency in units of 1/100000, rounded half up and capped at the
/// largest 32-bit number. A zero denominator stands for an undefined ratio
/// (0 units) or an infinite one (the cap).
pub open spec fn quantize(f: Freq) -> int {
    if f.den == 0 {
        if f.num == 0 {
            0
        } else {
            u32::MAX as int
        }
    } else {
        let q = (2 * f.num * UNITS + f.den) / (2 * f.den);
        if q > u32::MAX {
            u32::MAX as int
        } else {
            q
        }
    }
}

/// The three symbols of a number of units: its low 18 bits, six at a time,
/// from the highest down.
pub open spec fn symbols_of(units: int) -> Seq<char> {
    seq![
        base64::symbol_of((units / 4096) % 64),
        base64::symbol_of((units / 64) % 64),
        base64::symbol_of(units % 64),
    ]
}

/// The symbols of a frequency.
pub open spec fn pack_spec(f: Freq) -> Seq<char> {
    symbols_of(quantize(f))
}

/// The number of units that three symbols of the alphabet spell.
pub open spec fn units_of(c0: char, c1: char, c2: char) -> int {
    base64::value_of(c0) * 4096 + base64::value_of(c1) * 64 + base64::value_of(c2)
}

/// The frequency that three symbols spell: their units over 100000.
pub open spec fn unpack_spec(c0: char, c1: char, c2: char) -> Freq {
    Freq { num: units_of(c0, c1, c2) as u64, den: UNITS }
}

/// The frequency in units of 1/100000.
pub fn units(f: Freq) -> (r: u32)
    ensures
        r == quantize(f),
{
    if f.den == 0 {
        if f.num == 0 {
            0
        } else {
            u32::MAX
        }
    } else {
        let num: u128 = f.num as u128;
        let den: u128 = f.den as u128;
        assert(2 * num * 100_000 + den <= u128::MAX) by (nonlinear_arith)
            requires
                num <= u64::MAX,
                den <= u64::MAX,
        ;
        let q: u128 = (2 * num * 100_000 + den) / (2 * den);
        if q > u32::MAX as u128 {
            u32::MAX
        } else {
            q as u32
        }
    }
}

/// The three symbols of a frequency.
#[inline]
pub fn pack(f: Freq) -> (r: [char; 3])
    ensures
        r@ == pack_spec(f),
{
    let num: u32 = units(f);
    let r = [
        base64::pack(((num / 4096) % 64) as u8),
        base64::pack(((num / 64) % 64) as u8),
        base64::pack((num % 64) as u8),
    ];
    assert(r@ =~= pack_spec(f));
    r
}

/// The frequency that three symbols of the alphabet spell.
#[inline]
pub fn unpack(chars: &[char]) -> (r: Freq)
    requires
        chars@.len() == 3,
        base64::is_symbol(chars@[0]),
        base64::is_symbol(chars@[1]),
        base64::is_symbol(chars@[2]),
    ensures
        r == unpack_spec(chars@[0], chars@[1], chars@[2]),
{
    proof {
        base64::lemma_pack_unpack(chars@[0]);
        base64::lemma_pack_unpack(chars@[1]);
        base64::lemma_pack_unpack(chars@[2]);
    }
    let num: u32 = base64::unpack(chars[0]) * 4096 + base64::unpack(chars[1]) * 64
        + base64::unpack(chars[2]);
    Freq { num: num as u64, den: UNITS }
}

/// The symbols of a number of units below 2^18 spell that number.
pub proof fn lemma_units_of_symbols(units: int)
    requires
        0 <= units < 262144,
    ensures
        units_of(symbols_of(units)[0], symbols_of(units)[1], symbols_of(units)[2]) == units,
        base64::is_symbol(symbols_of(units)[0]),
        base64::is_symbol(symbols_of(units)[1]),
        base64::is_symbol(symbols_of(units)[2]),
{
    let a = (units / 4096) % 64;
    let b = (units / 64) % 64;
    let c = units % 64;
    base64::lemma_unpack_pack(a);
    base64::lemma_unpack_pack(b);
    base64::lemma_unpack_pack(c);
    assert(units / 4096 < 64);
    assert(a * 4096 + b * 64 + c == units);
}

/// Packing a frequency and unpacking the symbols gives a frequency within
/// half a unit of 1/100000 of the first, wherever the first rounds to fewer
/// than 2^18 units (so below about 2.62).
pub proof fn lemma_unpack_pack_close(f: Freq)
    requires
        f.den > 0,
        quantize(f) < 262144,
    ensures
        ({
            let s = pack_spec(f);
            let g = unpack_spec(s[0], s[1], s[2]);
            &&& g.den == UNITS
            &&& g.num == quantize(f)
            &&& 2 * (g.num * f.den - f.num * UNITS) <= f.den
            &&& 2 * (f.num * UNITS - g.num * f.den) < f.den
        }),
{
    let q = quantize(f);
    let n = 2 * f.num * UNITS + f.den;
    let d = 2 * f.den;
    assert(q == n / d);
    assert(0 <= q) by (nonlinear_arith)
        requires
            q == n / d,
            n >= 0,
            d > 0,
    ;
    lemma_units_of_symbols(q);
    assert(q * d <= n && n < q * d + d) by (nonlinear_arith)
        requires
            q == n / d,
            d > 0,
    ;
    assert(q * d == 2 * (q * f.den)) by (nonlinear_arith)
        requires
            d == 2 * f.den,
    ;
}

} // verus!
