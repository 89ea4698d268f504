//! A document preprocessor that finds fenced code blocks tagged with the
//! `dot process` trigger, hands their source to an external Graphviz renderer,
//! and splices an image reference to the rendered artifact back into the
//! document in place of each block.

pub mod block;
pub mod chapter;
pub mod errors;
pub mod events;
pub mod normalize;
pub mod renderer;
pub mod scan;
pub mod strutil;
