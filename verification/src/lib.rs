//! Ergonomic typing metrics for keyboard layouts: the board model, the
//! trigram classifier, the corpus aggregator, the packed text codec and the
//! content-addressed cache of computed stats.

pub mod cmds;
pub mod util;
