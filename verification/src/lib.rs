use vstd::prelude::*;

pub mod encoding;
pub mod fits;
pub mod header_map;
pub mod laws;
pub mod indexer;
pub mod lookup;
pub mod metadata;
pub mod numbers;
pub mod preview;
pub mod quality;
pub mod queries;
pub mod text;
pub mod words;
pub mod xisf;
pub mod xml;

verus! {
} // verus!
