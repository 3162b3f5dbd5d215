//! The 64-symbol alphabet: `A`-`Z`, `a`-`z`, `0`-`9`, `+`, `/`.

use vstd::prelude::*;

verus! {

/// The symbol that stands for a value; every value above 62 gives `/`.
pub open spec fn symbol_of(value: int) -> char {
    if value < 26 {
        (value + 65) as char
    } else if value < 52 {
        (value + 71) as char
    } else if value < 62 {
        (value - 4) as char
    } else if value == 62 {
        '+'
    } else {
        '/'
    }
}

/// The value that a character stands for, by its code point: the letters and
/// digits by their offsets, `+` as 62, and whatever lies below `0` as 63.
pub open spec fn value_of(c: char) -> int {
    let ord = c as int;
    if ord >= 97 {
        ord - 71
    } else if ord >= 65 {
        ord - 65
    } else if ord >= 48 {
        ord + 4
    } else if c == '+' {
        62
    } else {
        63
    }
}

/// Whether the character is one of the 64 symbols.
pub open spec fn is_symbol(c: char) -> bool {
    ||| 'A' <= c <= 'Z'
    ||| 'a' <= c <= 'z'
    ||| '0' <= c <= '9'
    ||| c == '+'
    ||| c == '/'
}

/// The symbol for `value`.
#[inline]
pub fn pack(value: u8) -> (r: char)
    ensures
        r == symbol_of(value as int),
{
    if value < 26 {
        return (value + 65) as char;
    }
    if value < 52 {
        return (value + 71) as char;
    }
    if value < 62 {
        return (value - 4) as char;
    }
    if value == 62 {
        '+'
    } else {
        '/'
    }
}

/// The value of the symbol `c`.
#[inline]
pub fn unpack(c: char) -> (r: u32)
    ensures
        r == value_of(c),
{
    let ord: u32 = c as u32;
    if ord >= 97 {
        return ord - 71;
    }
    if ord >= 65 {
        return ord - 65;
    }
    if ord >= 48 {
        return ord + 4;
    }
    if c == '+' {
        62
    } else {
        63
    }
}

/// Whether `c` is one of the 64 symbols.
pub fn is_alphabet(c: char) -> (r: bool)
    ensures
        r == is_symbol(c),
{
    ('A' <= c && c <= 'Z') || ('a' <= c && c <= 'z') || ('0' <= c && c <= '9') || c == '+' || c
        == '/'
}

/// Every value below 64 has a symbol of the alphabet, and the symbol stands
/// for that value.
pub proof fn lemma_unpack_pack(value: int)
    requires
        0 <= value < 64,
    ensures
        is_symbol(symbol_of(value)),
        value_of(symbol_of(value)) == value,
{
}

/// Every symbol of the alphabet stands for a value below 64, whose symbol it is.
pub proof fn lemma_pack_unpack(c: char)
    requires
        is_symbol(c),
    ensures
        0 <= value_of(c) < 64,
        symbol_of(value_of(c)) == c,
{
}

} // verus!
