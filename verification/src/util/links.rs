//! The external link of each layout that has one.

use vstd::prelude::*;
use crate::util::names::NameMap;
use crate::util::text::{push_str, string_of};

verus! {

/// The link of each layout that has one, under the layout's name.
pub type Links = NameMap<String>;

/// The link of a layout as it is shown: between angle brackets; the empty
/// text where the layout has none.
pub open spec fn link_text(link: Option<String>) -> Seq<char> {
    match link {
        Some(link) => "<"@ + link@ + ">"@,
        None => Seq::empty(),
    }
}

/// The link of a layout as it is shown.
pub fn get_link(links: &Links, layout_name: &str) -> (r: String)
    ensures
        r@ == link_text(links.lookup(layout_name@)),
{
    match links.get(layout_name) {
        Some(link) => {
            let mut out: Vec<char> = Vec::new();
            push_str(&mut out, "<");
            push_str(&mut out, link.as_str());
            push_str(&mut out, ">");
            assert(out@ =~= "<"@ + link@ + ">"@);
            string_of(&out)
        },
        None => String::new(),
    }
}

} // verus!
