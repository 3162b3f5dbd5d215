//! The model, the codec, the classifier, the registry and the cache.

use vstd::prelude::*;
use crate::cmds::Context;
use crate::util::cache::ServerCachedStats;

pub mod model;
pub mod text;
pub mod consts;
pub mod conv;
pub mod corpora;
pub mod analyzer;
pub mod analyzer_util;
pub mod authors;
pub mod cache;
pub mod jsons;
pub mod keys;
pub mod layout;
pub mod links;
pub mod memory;
pub mod message;
pub mod names;
pub mod parser;

verus! {

/// Whether every store holds something: the authors, the cache, the list of
/// corpora, the corpus preferences, the links, the layouts and the likes.
pub open spec fn is_loaded(ctx: Context, cache: ServerCachedStats) -> bool {
    &&& ctx.authors.names().len() > 0
    &&& cache.names().len() > 0
    &&& ctx.corpora@.len() > 0
    &&& ctx.prefs@.len() > 0
    &&& ctx.links.names().len() > 0
    &&& ctx.layouts@.len() > 0
    &&& ctx.likes.names().len() > 0
}

/// Whether every store holds something.
pub fn validate_json(ctx: &Context, cache: &ServerCachedStats) -> (r: bool)
    ensures
        r == is_loaded(*ctx, *cache),
{
    broadcast use vstd::std_specs::hash::group_hash_axioms;

    !ctx.authors.is_empty() && cache.len() > 0 && ctx.corpora.len() > 0 && ctx.prefs.len() > 0
        && ctx.links.len() > 0 && ctx.layouts.len() > 0 && ctx.likes.len() > 0
}

} // verus!
