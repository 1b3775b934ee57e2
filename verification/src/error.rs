//! What a parse reports: the fatal error that ends it, and the top-level
//! constructs that it passed over.

use crate::tokenizer::{Token, TokenView};
use vstd::prelude::*;

verus! {

/// The nested structures of the grammar.
#[derive(Debug, Clone, Copy, PartialEq, Eq, Structural)]
pub enum Block {
    Submitter,
    Individual,
    Family,
    Source,
    Repository,
    FamilyLink,
    RepoCitation,
    Name,
    Event,
    Address,
    SourceCitation,
    ContinuedText,
}

/// What the parser needed where it found something else.
#[derive(Debug, Clone, Copy, PartialEq, Eq, Structural)]
pub enum Expected {
    /// A level token of depth zero, which opens a record.
    RecordLevel,
    /// The tag that names a record.
    RecordTag,
    /// The value of the line whose tag came just before.
    LineValue,
    /// A tag of the block's grammar, or a level token.
    Field(Block),
    /// One of the gender values `M`, `F`, `N`, `U`.
    Gender,
    /// One of the pedigree values `adopted`, `birth`, `foster`, `sealing`.
    Pedigree,
}

/// The fatal error that ends a parse.
#[derive(Debug, PartialEq, Eq)]
pub struct ParseError {
    /// The index of the offending token in the stream; the stream's length
    /// where the stream ended too early.
    pub position: usize,
    /// The input line of the offending token.
    pub line: usize,
    pub expected: Expected,
    /// The offending token; `None` where the stream ended too early.
    pub found: Option<Token>,
}

/// A parse error with its token as a view.
pub struct ParseErrorView {
    pub position: int,
    pub line: nat,
    pub expected: Expected,
    pub found: Option<TokenView>,
}

impl View for ParseError {
    type V = ParseErrorView;

    open spec fn view(&self) -> ParseErrorView {
        ParseErrorView {
            position: self.position as int,
            line: self.line as nat,
            expected: self.expected,
            found: self.found.deep_view(),
        }
    }
}

/// A token that stood where the tag of a record was due, and was passed over.
#[derive(Debug, PartialEq, Eq)]
pub struct Unhandled {
    /// The input line of the token.
    pub line: usize,
    pub token: Token,
}

/// An unhandled token as a view.
pub struct UnhandledView {
    pub line: nat,
    pub token: TokenView,
}

impl View for Unhandled {
    type V = UnhandledView;

    open spec fn view(&self) -> UnhandledView {
        UnhandledView { line: self.line as nat, token: self.token@ }
    }
}

impl DeepView for Unhandled {
    type V = UnhandledView;

    open spec fn deep_view(&self) -> UnhandledView {
        self@
    }
}

} // verus!
