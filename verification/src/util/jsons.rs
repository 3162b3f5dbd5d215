//! What is made of configuration once it has been read: the table of
//! metrics, and the grams of a corpus.

use vstd::prelude::*;
use crate::util::analyzer::{Table, TABLE_SIZE};
use crate::util::model::{metric_of_name, Finger, Metric};
use crate::util::text::chars_of;

verus! {

/// Why a configuration gives no table.
#[derive(Debug, PartialEq, Eq, Copy, Clone, Structural)]
pub enum TableError {
    /// The entry at this index does not begin with three finger names.
    BadFingers(usize),
    /// The entry at this index names no metric.
    BadMetric(usize),
}

/// The finger that a hand letter and a finger letter name: `LP`, `LR`, `LM`,
/// `LI`, `LT` are 0 to 4, and `RT`, `RI`, `RM`, `RR`, `RP` are 5 to 9.
pub open spec fn finger_of(hand: char, finger: char) -> Option<Finger> {
    if hand == 'L' {
        if finger == 'P' {
            Some(0u16)
        } else if finger == 'R' {
            Some(1u16)
        } else if finger == 'M' {
            Some(2u16)
        } else if finger == 'I' {
            Some(3u16)
        } else if finger == 'T' {
            Some(4u16)
        } else {
            None
        }
    } else if hand == 'R' {
        if finger == 'T' {
            Some(5u16)
        } else if finger == 'I' {
            Some(6u16)
        } else if finger == 'M' {
            Some(7u16)
        } else if finger == 'R' {
            Some(8u16)
        } else if finger == 'P' {
            Some(9u16)
        } else {
            None
        }
    } else {
        None
    }
}

/// The slot that a combination of three finger names stands for: the first
/// six characters are read, what follows them is not.
pub open spec fn combo_slot(s: Seq<char>) -> Option<int> {
    if s.len() < 6 {
        None
    } else {
        match (finger_of(s[0], s[1]), finger_of(s[2], s[3]), finger_of(s[4], s[5])) {
            (Some(a), Some(b), Some(c)) => Some(a * 256 + b * 16 + c),
            _ => None,
        }
    }
}

/// Whether an entry names three fingers and a metric.
pub open spec fn entry_ok(e: (String, String)) -> bool {
    combo_slot(e.0@) is Some && metric_of_name(e.1@) is Some
}

/// The table that the entries fill, a later entry replacing an earlier one at
/// the same slot; a slot that no entry names holds `Unknown`.
pub open spec fn table_of(entries: Seq<(String, String)>) -> Seq<Metric>
    decreases entries.len(),
{
    if entries.len() == 0 {
        Seq::new(TABLE_SIZE as nat, |i: int| Metric::Unknown)
    } else {
        table_of(entries.drop_last()).update(
            combo_slot(entries.last().0@).unwrap(),
            metric_of_name(entries.last().1@).unwrap(),
        )
    }
}

/// The finger that two letters name.
pub fn finger(hand: char, letter: char) -> (r: Option<Finger>)
    ensures
        r == finger_of(hand, letter),
{
    if hand == 'L' {
        if letter == 'P' {
            Some(0)
        } else if letter == 'R' {
            Some(1)
        } else if letter == 'M' {
            Some(2)
        } else if letter == 'I' {
            Some(3)
        } else if letter == 'T' {
            Some(4)
        } else {
            None
        }
    } else if hand == 'R' {
        if letter == 'T' {
            Some(5)
        } else if letter == 'I' {
            Some(6)
        } else if letter == 'M' {
            Some(7)
        } else if letter == 'R' {
            Some(8)
        } else if letter == 'P' {
            Some(9)
        } else {
            None
        }
    } else {
        None
    }
}

/// The slot that a combination of three finger names stands for.
pub fn slot_of(finger_combo: &str) -> (r: Option<Finger>)
    ensures
        match r {
            Some(slot) => combo_slot(finger_combo@) == Some(slot as int) && slot < TABLE_SIZE,
            None => combo_slot(finger_combo@) is None,
        },
{
    let chars = chars_of(finger_combo);
    if chars.len() < 6 {
        return None;
    }
    match (finger(chars[0], chars[1]), finger(chars[2], chars[3]), finger(chars[4], chars[5])) {
        (Some(a), Some(b), Some(c)) => Some(a * 256 + b * 16 + c),
        _ => None,
    }
}

/// The table that a configuration fills: each entry is a combination of
/// three finger names and the name of its metric. The first entry that names
/// no such combination, or no metric, is an error.
pub fn get_table(entries: &Vec<(String, String)>) -> (r: Result<Table, TableError>)
    ensures
        match r {
            Ok(table) => {
                &&& forall|i: int| 0 <= i < entries@.len() ==> entry_ok(#[trigger] entries@[i])
                &&& table@ == table_of(entries@)
            },
            Err(TableError::BadFingers(i)) => {
                &&& i < entries@.len()
                &&& forall|j: int| 0 <= j < i ==> entry_ok(#[trigger] entries@[j])
                &&& combo_slot(entries@[i as int].0@) is None
            },
            Err(TableError::BadMetric(i)) => {
                &&& i < entries@.len()
                &&& forall|j: int| 0 <= j < i ==> entry_ok(#[trigger] entries@[j])
                &&& combo_slot(entries@[i as int].0@) is Some
                &&& metric_of_name(entries@[i as int].1@) is None
            },
        },
{
    let mut table = Table::new();
    assert(table@ =~= table_of(entries@.take(0)));
    let mut i: usize = 0;
    while i < entries.len()
        invariant
            i <= entries.len(),
            table@.len() == TABLE_SIZE,
            table@ == table_of(entries@.take(i as int)),
            forall|j: int| 0 <= j < i ==> entry_ok(#[trigger] entries@[j]),
        decreases entries.len() - i,
    {
        let slot = match slot_of(entries[i].0.as_str()) {
            Some(slot) => slot,
            None => {
                return Err(TableError::BadFingers(i));
            },
        };
        let gram_type = match Metric::parse(entries[i].1.as_str()) {
            Some(metric) => metric,
            None => {
                return Err(TableError::BadMetric(i));
            },
        };
        proof {
            assert(entries@.take(i + 1).drop_last() =~= entries@.take(i as int));
            assert(entries@.take(i + 1).last() == entries@[i as int]);
        }
        table = table.with(slot, gram_type);
        i += 1;
    }
    assert(entries@.take(entries@.len() as int) =~= entries@);
    Ok(table)
}

} // verus!
