//! Tokens and the cursor that hands them to the parser one at a time.

use crate::keyword::{classify, keyword_of, Keyword};
use vstd::prelude::*;

verus! {

/// One lexical unit of an input line.
#[derive(Debug, PartialEq, Eq)]
pub enum Token {
    /// The nesting depth that opens a line.
    Level(u8),
    /// A cross-reference identifier such as `@I1@`.
    Pointer(String),
    /// The mnemonic that names a line's role.
    Tag(String),
    /// The free text after a line's tag.
    LineValue(String),
}

/// A token with its strings as character sequences.
pub enum TokenView {
    Level(u8),
    Pointer(Seq<char>),
    Tag(Seq<char>),
    LineValue(Seq<char>),
}

impl View for Token {
    type V = TokenView;

    open spec fn view(&self) -> TokenView {
        match self {
            Token::Level(n) => TokenView::Level(*n),
            Token::Pointer(s) => TokenView::Pointer(s@),
            Token::Tag(s) => TokenView::Tag(s@),
            Token::LineValue(s) => TokenView::LineValue(s@),
        }
    }
}

impl DeepView for Token {
    type V = TokenView;

    open spec fn deep_view(&self) -> TokenView {
        self@
    }
}

impl Clone for Token {
    fn clone(&self) -> (copy: Token)
        ensures
            copy == *self,
    {
        match self {
            Token::Level(n) => Token::Level(*n),
            Token::Pointer(s) => Token::Pointer(s.clone()),
            Token::Tag(s) => Token::Tag(s.clone()),
            Token::LineValue(s) => Token::LineValue(s.clone()),
        }
    }
}

/// What the parser needs to know of a token to choose its next step.
#[derive(Debug, Clone, Copy, PartialEq, Eq, Structural)]
pub enum Peek {
    /// The stream is exhausted.
    End,
    Level(u8),
    Pointer,
    Tag(Keyword),
    LineValue,
}

/// The token at `pos`, if the stream reaches that far.
pub open spec fn token_at(ts: Seq<TokenView>, pos: int) -> Option<TokenView> {
    if 0 <= pos < ts.len() {
        Some(ts[pos])
    } else {
        None
    }
}

/// The summary of the token at `pos`.
pub open spec fn glance(ts: Seq<TokenView>, pos: int) -> Peek {
    match token_at(ts, pos) {
        None => Peek::End,
        Some(TokenView::Level(n)) => Peek::Level(n),
        Some(TokenView::Pointer(_)) => Peek::Pointer,
        Some(TokenView::Tag(t)) => Peek::Tag(keyword_of(t)),
        Some(TokenView::LineValue(_)) => Peek::LineValue,
    }
}

/// How many of the first `end` tokens are level tokens.
pub open spec fn levels_before(ts: Seq<TokenView>, end: int) -> nat
    decreases end,
{
    if end <= 0 {
        0
    } else {
        levels_before(ts, end - 1) + if token_at(ts, end - 1) matches Some(TokenView::Level(_)) {
            1nat
        } else {
            0nat
        }
    }
}

/// The input line of the token at `pos`: every level token opens a line, so
/// this is the number of level tokens up to and including that position.
pub open spec fn line_at(ts: Seq<TokenView>, pos: int) -> nat {
    levels_before(ts, pos + 1)
}

/// No more level tokens can have passed than tokens.
pub proof fn lemma_levels_bounded(ts: Seq<TokenView>, end: int)
    ensures
        levels_before(ts, end) <= if end <= 0 {
            0
        } else if end <= ts.len() {
            end
        } else {
            ts.len() as int
        },
    decreases end,
{
    if end > 0 {
        lemma_levels_bounded(ts, end - 1);
    }
}

/// Where a cursor stands: the index of its token and that token's line.
struct Place {
    index: usize,
    line: usize,
}

/// A token stream with a cursor on its current token.
pub struct Tokenizer {
    tokens: Vec<Token>,
    place: Place,
}

impl Tokenizer {
    #[verifier::type_invariant]
    spec fn inv(self) -> bool {
        &&& self.place.index <= self.tokens.len()
        &&& self.place.line == line_at(self.tokens.deep_view(), self.place.index as int)
    }

    /// The whole stream.
    pub closed spec fn stream(&self) -> Seq<TokenView> {
        self.tokens.deep_view()
    }

    /// The index of the current token; the stream's length once it is exhausted.
    pub closed spec fn cursor(&self) -> int {
        self.place.index as int
    }

    /// A cursor on the first token of `tokens`.
    pub fn new(tokens: Vec<Token>) -> (tokenizer: Tokenizer)
        ensures
            tokenizer.stream() == tokens.deep_view(),
            tokenizer.cursor() == 0,
    {
        let line: usize = if tokens.len() > 0 {
            match &tokens[0] {
                Token::Level(_) => 1,
                _ => 0,
            }
        } else {
            0
        };
        proof {
            reveal_with_fuel(levels_before, 2);
        }
        Tokenizer { tokens, place: Place { index: 0, line } }
    }

    /// The current token, or `None` past the end of the stream.
    pub fn current_token(&self) -> (token: Option<&Token>)
        ensures
            0 <= self.cursor() <= self.stream().len(),
            token.deep_view() == token_at(self.stream(), self.cursor()),
    {
        proof {
            use_type_invariant(self);
        }
        if self.place.index < self.tokens.len() {
            Some(&self.tokens[self.place.index])
        } else {
            None
        }
    }

    /// The summary of the current token.
    pub fn peek(&self) -> (peek: Peek)
        ensures
            0 <= self.cursor() <= self.stream().len(),
            peek == glance(self.stream(), self.cursor()),
    {
        match self.current_token() {
            None => Peek::End,
            Some(Token::Level(n)) => Peek::Level(*n),
            Some(Token::Pointer(_)) => Peek::Pointer,
            Some(Token::Tag(t)) => Peek::Tag(classify(t.as_str())),
            Some(Token::LineValue(_)) => Peek::LineValue,
        }
    }

    /// Moves the cursor to the next token; at the end of the stream it stays.
    pub fn next_token(&mut self)
        ensures
            final(self).stream() == old(self).stream(),
            0 <= old(self).cursor() <= old(self).stream().len(),
            final(self).cursor() == if old(self).cursor() < old(self).stream().len() {
                old(self).cursor() + 1
            } else {
                old(self).cursor()
            },
    {
        proof {
            use_type_invariant(&*self);
        }
        if self.place.index < self.tokens.len() {
            proof {
                lemma_levels_bounded(self.tokens.deep_view(), self.place.index as int + 1);
            }
            let next: usize = self.place.index + 1;
            let opens_line = if next < self.tokens.len() {
                match &self.tokens[next] {
                    Token::Level(_) => true,
                    _ => false,
                }
            } else {
                false
            };
            let line: usize = if opens_line {
                self.place.line + 1
            } else {
                self.place.line
            };
            self.place = Place { index: next, line };
        }
    }

    /// The index of the current token.
    pub fn position(&self) -> (position: usize)
        ensures
            position == self.cursor(),
    {
        self.place.index
    }

    /// The input line of the current token.
    pub fn line(&self) -> (line: usize)
        ensures
            line == line_at(self.stream(), self.cursor()),
    {
        proof {
            use_type_invariant(self);
        }
        self.place.line
    }

    /// Whether the stream is exhausted.
    pub fn done(&self) -> (done: bool)
        ensures
            done == (self.cursor() >= self.stream().len()),
    {
        proof {
            use_type_invariant(self);
        }
        self.place.index >= self.tokens.len()
    }
}

} // verus!
