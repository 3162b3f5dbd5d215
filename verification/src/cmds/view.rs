//! Looking at a layout.

use vstd::prelude::*;
use crate::cmds::{help_spec, help_text, no_layout, no_layout_spec};
use crate::util::memory::{best_match_spec, first_max, scores_of, ServerLayouts};
use crate::util::model::LayoutConfig;

verus! {

/// The command that shows a layout.
pub struct Command;

impl Command {
    /// The layout whose name is most similar to the argument, or what is to
    /// be said where there is none.
    pub fn exec<'a>(&self, arg: &str, layouts: &'a ServerLayouts) -> (r: Result<&'a LayoutConfig, String>)
        ensures
            match r {
                Ok(ll) => {
                    &&& arg@.len() > 0
                    &&& first_max(scores_of(layouts@, arg@)) is Some
                    &&& *ll == layouts@[first_max(scores_of(layouts@, arg@)).unwrap()]
                    &&& ll.name@ == best_match_spec(layouts@, arg@)
                },
                Err(message) => if arg@.len() == 0 {
                    message@ == help_spec("view <layout name>"@, "see the stats of a layout"@)
                } else {
                    first_max(scores_of(layouts@, arg@)) is None && message@ == no_layout_spec(arg@)
                },
            },
    {
        if arg.is_empty() {
            return Err(help_text(self.usage(), self.desc()));
        }
        match layouts.find(arg) {
            Some(ll) => Ok(ll),
            None => Err(no_layout(arg)),
        }
    }

    /// How the command is called.
    pub fn usage(&self) -> (r: &'static str)
        ensures
            r@ == "view <layout name>"@,
    {
        "view <layout name>"
    }

    /// What the command does.
    pub fn desc(&self) -> (r: &'static str)
        ensures
            r@ == "see the stats of a layout"@,
    {
        "see the stats of a layout"
    }
}

} // verus!
