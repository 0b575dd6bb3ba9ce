//! Lossless concrete syntax tree support for Badger source files.
//!
//! The primary entry point is [`parse`], which produces a concrete syntax tree
//! that serializes back to the original source, character for character.

pub mod commands;
pub mod grammar;
pub mod kinds;
pub mod laws;
pub mod lexer;
pub mod parser;
pub mod text;
pub mod tree;

pub use kinds::SyntaxKind;
pub use parser::parse;

use rowan::GreenNode;
use tree::{events_text, green_events, green_text, Event};
use vstd::prelude::*;

verus! {

/// A strict parse failure.
///
/// Parsing stops at the first offending token; no partial tree is returned.
#[derive(Debug, Clone, PartialEq, Eq)]
pub struct ParseError {
    /// Byte offset of the offending token in the source.
    pub offset: usize,
    /// Human-readable parse failure message.
    pub message: String,
}

/// A successfully parsed Badger concrete syntax tree.
pub struct Parse {
    green: GreenNode,
}

impl Parse {
    /// The events that build the tree, in preorder.
    pub closed spec fn events(self) -> Seq<Event> {
        green_events(self.green)
    }

    /// The green tree that holds the parse.
    pub fn green(&self) -> (g: &GreenNode)
        ensures
            green_events(*g) == self.events(),
    {
        &self.green
    }

    /// Serializes the CST back to source text without normalization.
    pub fn serialize(&self) -> (s: String)
        ensures
            s@ == events_text(self.events()),
    {
        green_text(&self.green)
    }
}

} // verus!
