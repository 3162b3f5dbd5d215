//! A message as the commands see it: the trigger, the action, the argument
//! text and the author's identity.

use vstd::prelude::*;
use crate::util::parser::word_end;
use crate::util::text::{chars_of, leading_whitespace, string_of, white_space};

verus! {

/// The first word of a text, and what follows the whitespace after it.
pub open spec fn split_word_spec(s: Seq<char>) -> (Seq<char>, Seq<char>) {
    let k = word_end(s);
    if k < 0 || k >= s.len() {
        (s, Seq::empty())
    } else {
        let rest = s.skip(k + 1);
        (s.take(k), rest.skip(leading_whitespace(rest)))
    }
}

/// The first word of a text, and what follows the whitespace after it.
pub fn split_word(s: &str) -> (r: (String, String))
    ensures
        r.0@ == split_word_spec(s@).0,
        r.1@ == split_word_spec(s@).1,
{
    let chars = chars_of(s);
    let n = chars.len();
    let mut k: usize = 0;
    while k < n && !chars[k].is_whitespace()
        invariant
            k <= n,
            n == chars.len(),
            forall|j: int| 0 <= j < k ==> !white_space(chars@[j]),
        decreases n - k,
    {
        k += 1;
    }
    proof {
        crate::util::parser::lemma_word_end(chars@, k as int);
    }
    if k >= n {
        return (string_of(&chars), String::new());
    }
    let first = vstd::slice::slice_to_vec(vstd::slice::slice_subrange(chars.as_slice(), 0, k));
    let rest = vstd::slice::slice_to_vec(vstd::slice::slice_subrange(chars.as_slice(), k + 1, n));
    assert(first@ =~= chars@.take(k as int));
    assert(rest@ =~= chars@.skip(k + 1));
    let a = crate::util::text::count_leading_whitespace(&rest);
    let tail = vstd::slice::slice_to_vec(vstd::slice::slice_subrange(rest.as_slice(), a, rest.len()));
    assert(tail@ =~= rest@.skip(a as int));
    (string_of(&first), string_of(&tail))
}

/// What a message says to the commands.
pub struct Message {
    /// The word that addresses the bot; empty in a private conversation.
    pub trigger: String,
    /// The name of the command.
    pub action: String,
    /// What follows the name of the command.
    pub arg: String,
    /// The identity of the author.
    pub id: u64,
}

/// The parts of a message's text: in a channel the first word is the
/// trigger and the second the action; in a private conversation there is no
/// trigger and the first word is the action.
pub open spec fn message_parts(content: Seq<char>, is_dm: bool) -> (Seq<char>, Seq<char>, Seq<char>) {
    if is_dm {
        (Seq::empty(), split_word_spec(content).0, split_word_spec(content).1)
    } else {
        let rest = split_word_spec(content).1;
        (split_word_spec(content).0, split_word_spec(rest).0, split_word_spec(rest).1)
    }
}

impl Message {
    /// Takes the text of a message apart.
    pub fn from(content: &str, is_dm: bool, id: u64) -> (r: Self)
        ensures
            r.id == id,
            r.trigger@ == message_parts(content@, is_dm).0,
            r.action@ == message_parts(content@, is_dm).1,
            r.arg@ == message_parts(content@, is_dm).2,
    {
        if is_dm {
            let (action, arg) = split_word(content);
            Message { trigger: String::new(), action, arg, id }
        } else {
            let (trigger, rest) = split_word(content);
            let (action, arg) = split_word(rest.as_str());
            Message { trigger, action, arg, id }
        }
    }
}

} // verus!
