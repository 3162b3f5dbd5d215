//! Perfect hashes for the names of a table of metrics: a combination of
//! three fingers, and the name of a metric.

use vstd::prelude::*;
use vstd::string::StringSliceAdditionalSpecFns;
use crate::util::text::str_owned;

verus! {

/// The number of a finger letter: `I`, `M`, `R`, `P`, `T`, `B` are 0 to 5,
/// and every other letter is 0.
pub open spec fn finger_value(b: u8) -> u16 {
    if b == 77 {
        1
    } else if b == 82 {
        2
    } else if b == 80 {
        3
    } else if b == 84 {
        4
    } else if b == 66 {
        5
    } else {
        0
    }
}

/// The number of a letter of a metric's name.
pub open spec fn metric_value(b: u8) -> u8 {
    if b == 84 || b == 108 {
        1
    } else if b == 98 {
        2
    } else if b == 116 {
        3
    } else if b == 102 {
        4
    } else if b == 110 {
        5
    } else if b == 97 {
        6
    } else if b == 114 {
        7
    } else if b == 119 {
        8
    } else if b == 101 {
        10
    } else if b == 105 {
        32
    } else if b == 111 {
        16
    } else if b == 45 {
        64
    } else {
        0
    }
}

/// The number of a finger letter.
pub fn finger_number(b: u8) -> (r: u16)
    ensures
        r == finger_value(b),
        r <= 5,
{
    if b == 77 {
        1
    } else if b == 82 {
        2
    } else if b == 80 {
        3
    } else if b == 84 {
        4
    } else if b == 66 {
        5
    } else {
        0
    }
}

/// The number of a letter of a metric's name.
pub fn metric_number(b: u8) -> (r: u8)
    ensures
        r == metric_value(b),
{
    if b == 84 || b == 108 {
        1
    } else if b == 98 {
        2
    } else if b == 116 {
        3
    } else if b == 102 {
        4
    } else if b == 110 {
        5
    } else if b == 97 {
        6
    } else if b == 114 {
        7
    } else if b == 119 {
        8
    } else if b == 101 {
        10
    } else if b == 105 {
        32
    } else if b == 111 {
        16
    } else if b == 45 {
        64
    } else {
        0
    }
}

/// The bit of a hand letter: set for `R`.
pub open spec fn hand_bit(b: u8) -> u16 {
    if b == 82 {
        8
    } else {
        0
    }
}

/// The hash of six bytes that name three fingers, a hand letter and a
/// finger letter each: four bits a finger, the hand in the highest of them.
pub open spec fn combo_hash(bytes: Seq<u8>) -> u16 {
    ((hand_bit(bytes[0]) + finger_value(bytes[1])) * 256 + (hand_bit(bytes[2]) + finger_value(
        bytes[3],
    )) * 16 + (hand_bit(bytes[4]) + finger_value(bytes[5]))) as u16
}

/// The hash of the bytes of a metric's name: for a name of up to four bytes
/// the number of its third letter; for a longer one the number of its sixth
/// letter, joined bit by bit with that of its fourth where it is ten or
/// more.
pub open spec fn name_hash(bytes: Seq<u8>) -> u8 {
    if bytes.len() <= 4 {
        metric_value(bytes[2])
    } else if metric_value(bytes[5]) >= 10 {
        metric_value(bytes[5]) | metric_value(bytes[3])
    } else {
        metric_value(bytes[5])
    }
}

/// A combination of three fingers.
#[derive(PartialEq, Eq)]
pub struct ThreeFingerCombo {
    fingers: String,
}

impl ThreeFingerCombo {
    /// The combination that a text names.
    #[inline]
    pub fn new(fingers: String) -> (r: Self)
        ensures
            r.text() == fingers@,
    {
        ThreeFingerCombo { fingers }
    }

    /// The text of the combination.
    pub closed spec fn text(&self) -> Seq<char> {
        self.fingers@
    }

    /// The hash of the combination, or `None` where its text takes fewer
    /// than six bytes.
    pub fn hash_value(&self) -> (r: Option<u16>)
        ensures
            r == (if vstd::utf8::encode_utf8(self.text()).len() >= 6 {
                Some(combo_hash(vstd::utf8::encode_utf8(self.text())))
            } else {
                None
            }),
    {
        let text = self.fingers.as_str();
        let bytes = text.as_bytes();
        assert(text.spec_bytes() == vstd::utf8::encode_utf8(self.text()));
        if bytes.len() < 6 {
            return None;
        }
        let first: u16 = (if bytes[0] == 82 { 8 } else { 0 }) + finger_number(bytes[1]);
        let second: u16 = (if bytes[2] == 82 { 8 } else { 0 }) + finger_number(bytes[3]);
        let third: u16 = (if bytes[4] == 82 { 8 } else { 0 }) + finger_number(bytes[5]);
        Some(first * 256 + second * 16 + third)
    }
}

/// The name of a metric.
#[derive(PartialEq, Eq, Clone, Copy)]
pub struct MetricName<'a> {
    name: &'a str,
}

impl<'a> MetricName<'a> {
    /// The name that a text spells.
    #[inline]
    pub fn new(name: &'a str) -> (r: Self)
        ensures
            r.text() == name@,
    {
        MetricName { name }
    }

    /// The text of the name.
    pub closed spec fn text(&self) -> Seq<char> {
        self.name@
    }

    /// The name as a string.
    #[inline]
    pub fn to_string(&self) -> (r: String)
        ensures
            r@ == self.text(),
    {
        str_owned(self.name)
    }

    /// The hash of the name, or `None` where it is too short to have one:
    /// under three bytes, or of five.
    pub fn hash_value(&self) -> (r: Option<u8>)
        ensures
            r == ({
                let bytes = vstd::utf8::encode_utf8(self.text());
                if bytes.len() < 3 || bytes.len() == 5 {
                    None
                } else {
                    Some(name_hash(bytes))
                }
            }),
    {
        let text = self.name;
        let bytes = text.as_bytes();
        assert(text.spec_bytes() == vstd::utf8::encode_utf8(self.text()));
        if bytes.len() < 3 || bytes.len() == 5 {
            return None;
        }
        if bytes.len() <= 4 {
            return Some(metric_number(bytes[2]));
        }
        let mut hash_value = metric_number(bytes[5]);
        if hash_value >= 10 {
            hash_value = hash_value | metric_number(bytes[3]);
        }
        Some(hash_value)
    }
}

} // verus!
