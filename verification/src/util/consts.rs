//! Constants of the board model.

use vstd::prelude::*;

verus! {

/// The finger of each column, from the leftmost; columns past the tenth go
/// with the tenth.
pub const FMAP_STANDARD: [u16; 10] = [0, 1, 2, 3, 3, 6, 6, 7, 8, 9];

/// The finger of each column on the last row of an angle board: the left
/// hand shifted by one finger.
pub const FMAP_ANGLE: [u16; 10] = [1, 2, 3, 3, 3, 6, 6, 7, 8, 9];

/// The character that marks a free slot of a matrix.
pub const FREE_CHAR: char = '~';

/// The callers that may override ownership.
pub const ADMINS: [u64; 3] = [169285177481101312, 474550534301548556, 401316842083450881];

/// The prefixes that address the bot in a channel.
pub const TRIGGERS: [&'static str; 5] = ["!amini", "bmini", "!cmini", "!dvormini", "!cnini"];

/// Whether the caller may override ownership.
pub open spec fn is_admin_spec(id: u64) -> bool {
    id == 169285177481101312 || id == 474550534301548556 || id == 401316842083450881
}

/// Whether the caller may override ownership.
pub fn is_admin(id: u64) -> (r: bool)
    ensures
        r == is_admin_spec(id),
{
    id == ADMINS[0] || id == ADMINS[1] || id == ADMINS[2]
}

} // verus!
