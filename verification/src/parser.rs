//! The grammar of API declarations, rule by rule, over a text given as
//! characters. Each rule takes the position it starts at and gives what it
//! read and the position after it, or nothing where the text does not match.
pub mod block;
pub mod bounds;
pub mod chars;
pub mod config;
pub mod decl;
pub mod gaps;
pub mod insertion;
pub mod laws;
pub mod lexical;
pub mod locality;
pub mod path;
pub mod repeated;
pub mod rust;
pub mod shift;
pub mod types;

pub use crate::parser::config::{Config, UserType};
pub use crate::parser::rust::{Expected, ParseError, Rust};

use crate::input::ChunkBuffer;
use crate::model::builder::Builder;
use vstd::prelude::*;

verus! {

/// A reader of some syntax: it parses the chunks of `input` and merges what
/// they declare into `builder`.
pub trait Parser {
    fn parse(&self, config: &Config, input: &ChunkBuffer, builder: &mut Builder) -> Result<
        (),
        ParseError,
    >;
}

} // verus!
