//! The packed text codec for layouts and stats, and the checksum of packed
//! keys.

use vstd::prelude::*;

pub mod base64;
pub mod freq;
pub mod layout;
pub mod pos;
pub mod stats;

verus! {

/// The checksum of a packed layout: what `fxhash::FxHasher` makes of the
/// bytes of the text. The hasher reads the bytes in words of the machine's
/// size and byte order, so nothing is claimed of the number.
#[verifier::external_body]
#[inline]
pub fn hash_keys(keys: &str) -> (r: u64) {
    let mut hasher = fxhash::FxHasher::default();
    std::hash::Hasher::write(&mut hasher, keys.as_bytes());
    std::hash::Hasher::finish(&hasher)
}

} // verus!
