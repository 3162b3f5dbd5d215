//! Asking the ball.

use vstd::prelude::*;
use crate::util::text::str_owned;

verus! {

/// What the ball may answer.
pub const RESPONSES: [&'static str; 12] = [
    "Yes",
    "Count on it",
    "No doubt",
    "Absolutely",
    "Very likely",
    "Maybe",
    "Perhaps",
    "No",
    "No chance",
    "Unlikely",
    "Doubtful",
    "Probably not",
];

/// The command that answers anything.
pub struct Command;

impl Command {
    /// The answer that a roll picks: the rolls go round the answers.
    pub fn exec(&self, roll: usize) -> (r: String)
        ensures
            r@ == RESPONSES[roll as int % 12]@,
    {
        str_owned(RESPONSES[roll % 12])
    }

    /// How the command is called.
    pub fn usage(&self) -> (r: &'static str)
        ensures
            r@ == "8ball [anything]"@,
    {
        "8ball [anything]"
    }

    /// What the command does.
    pub fn desc(&self) -> (r: &'static str)
        ensures
            r@ == "let cmini decide the likelihood of [anything]"@,
    {
        "let cmini decide the likelihood of [anything]"
    }
}

} // verus!
