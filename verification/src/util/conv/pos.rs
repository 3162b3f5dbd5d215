//! A position as three hexadecimal digits: row, column, finger.

use vstd::prelude::*;
use crate::util::model::Position;
use crate::util::text::chars_of;

verus! {

/// The lowercase hexadecimal digit for a value below 16.
pub open spec fn hex_digit(n: int) -> char {
    if n < 10 {
        (n + 48) as char
    } else {
        (n + 87) as char
    }
}

/// The value of a hexadecimal digit of either case, or `None` for any other
/// character.
pub open spec fn hex_value(c: char) -> Option<int> {
    if '0' <= c <= '9' {
        Some(c as int - 48)
    } else if 'a' <= c <= 'f' {
        Some(c as int - 87)
    } else if 'A' <= c <= 'F' {
        Some(c as int - 55)
    } else {
        None
    }
}

/// The three digits of a position: each field reduced to its low four bits.
pub open spec fn pack_spec(p: Position) -> Seq<char> {
    seq![hex_digit(p.0 as int % 16), hex_digit(p.1 as int % 16), hex_digit(p.2 as int % 16)]
}

/// The position that three characters spell, or `None` unless the text is
/// exactly three hexadecimal digits.
pub open spec fn unpack_spec(s: Seq<char>) -> Option<Position> {
    if s.len() != 3 {
        None
    } else {
        match (hex_value(s[0]), hex_value(s[1]), hex_value(s[2])) {
            (Some(r), Some(c), Some(f)) => Some((r as u8, c as u8, f as u16)),
            _ => None,
        }
    }
}

/// Whether each field of the position fits in four bits, so that packing
/// loses nothing.
pub open spec fn fits(p: Position) -> bool {
    p.0 < 16 && p.1 < 16 && p.2 < 16
}

/// The lowercase hexadecimal digit for the low four bits of `n`.
pub fn digit(n: u16) -> (r: char)
    ensures
        r == hex_digit(n as int % 16),
{
    let low: u8 = (n % 16) as u8;
    if low < 10 {
        (low + 48) as char
    } else {
        (low + 87) as char
    }
}

/// The value of a hexadecimal digit.
pub fn digit_value(c: char) -> (r: Option<u8>)
    ensures
        match r {
            Some(v) => hex_value(c) == Some(v as int) && v < 16,
            None => hex_value(c) is None,
        },
{
    let ord: u32 = c as u32;
    if '0' <= c && c <= '9' {
        Some((ord - 48) as u8)
    } else if 'a' <= c && c <= 'f' {
        Some((ord - 87) as u8)
    } else if 'A' <= c && c <= 'F' {
        Some((ord - 55) as u8)
    } else {
        None
    }
}

/// The position that three characters spell.
pub fn parse(c0: char, c1: char, c2: char) -> (r: Option<Position>)
    ensures
        r == unpack_spec(seq![c0, c1, c2]),
{
    match (digit_value(c0), digit_value(c1), digit_value(c2)) {
        (Some(row), Some(col), Some(finger)) => Some((row, col, finger as u16)),
        _ => None,
    }
}

/// The three hexadecimal digits of a position.
#[inline]
pub fn pack(pos: &Position) -> (r: String)
    ensures
        r@ == pack_spec(*pos),
{
    let mut packed = String::new();
    packed.push(digit(pos.0 as u16));
    packed.push(digit(pos.1 as u16));
    packed.push(digit(pos.2));
    assert(packed@ =~= pack_spec(*pos));
    packed
}

/// The position that a text of three hexadecimal digits spells.
#[inline]
pub fn unpack(packed_str: &str) -> (r: Position)
    requires
        unpack_spec(packed_str@) is Some,
    ensures
        unpack_spec(packed_str@) == Some(r),
{
    let chars = chars_of(packed_str);
    assert(chars@ =~= seq![chars@[0], chars@[1], chars@[2]]);
    match parse(chars[0], chars[1], chars[2]) {
        Some(p) => p,
        None => vstd::pervasive::unreached(),
    }
}

/// Unpacking the digits of a position whose fields fit in four bits gives the
/// position back.
pub proof fn lemma_unpack_pack(p: Position)
    requires
        fits(p),
    ensures
        unpack_spec(pack_spec(p)) == Some(p),
{
}

} // verus!
