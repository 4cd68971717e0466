//! Verified core of the Zigistry package indexer: the `build.zig.zon`
//! tokenizer and parser, the text helpers used when records are stored, and
//! the decisions that the crawlers of GitHub and Codeberg make.
use vstd::prelude::*;

pub mod text;
pub mod constants;
pub mod custom_types;
pub mod bzz_stuff;
pub mod database;
pub mod json;
pub mod records;
pub mod github;
pub mod codeberg;
pub mod jobs;
pub mod sections;

verus! {

} // verus!
