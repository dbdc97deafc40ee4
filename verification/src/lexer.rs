//! Tokens and the token cursor the parser reads from.
//!
//! The cursor exposes exactly the operations the parser needs: peek at the
//! current token, consume it, test for exhaustion, and a diagnostic channel
//! for syntax errors. Token kinds are integer codes: punctuation tokens use
//! the character code of the punctuation character, and the literal and
//! identifier kinds use negative codes that no character occupies.

use vstd::prelude::*;

verus! {

/// Kind code of an integer-literal token.
pub const TOK_INT: i32 = -2;
/// Kind code of a string-literal token.
pub const TOK_STR_LIT: i32 = -3;
/// Kind code of a boolean-literal token.
pub const TOK_BOOL: i32 = -4;
/// Kind code of an identifier token.
pub const TOK_IDEN: i32 = -5;

/// Kind code of a `(` token: the character code of `(`.
pub const TOK_LPAREN: i32 = 40;
/// Kind code of a `)` token: the character code of `)`.
pub const TOK_RPAREN: i32 = 41;
/// Kind code of a `*` token: the character code of `*`.
pub const TOK_STAR: i32 = 42;
/// Kind code of a `+` token: the character code of `+`.
pub const TOK_PLUS: i32 = 43;
/// Kind code of a `,` token: the character code of `,`.
pub const TOK_COMMA: i32 = 44;
/// Kind code of a `-` token: the character code of `-`.
pub const TOK_MINUS: i32 = 45;
/// Kind code of a `/` token: the character code of `/`.
pub const TOK_SLASH: i32 = 47;

/// One lexical token. Literal tokens own their scalar payload; an
/// identifier owns its name; every other token is a single punctuation
/// or operator character, carried as its character code.
#[derive(Debug, PartialEq, Eq)]
pub enum Token {
    Int(i32),
    StrLit(String),
    Bool(bool),
    Iden(String),
    Punct(i32),
}

/// Mathematical model of a token: text payloads become character sequences.
pub ghost enum TokV {
    Int(i32),
    StrLit(Seq<char>),
    Bool(bool),
    Iden(Seq<char>),
    Punct(i32),
}

impl View for Token {
    type V = TokV;

    open spec fn view(&self) -> TokV {
        match self {
            Token::Int(v) => TokV::Int(*v),
            Token::StrLit(s) => TokV::StrLit(s@),
            Token::Bool(b) => TokV::Bool(*b),
            Token::Iden(s) => TokV::Iden(s@),
            Token::Punct(c) => TokV::Punct(*c),
        }
    }
}

/// The kind code of a token.
pub open spec fn kind_of(t: TokV) -> int {
    match t {
        TokV::Int(_) => TOK_INT as int,
        TokV::StrLit(_) => TOK_STR_LIT as int,
        TokV::Bool(_) => TOK_BOOL as int,
        TokV::Iden(_) => TOK_IDEN as int,
        TokV::Punct(c) => c as int,
    }
}

impl Token {
    /// The kind code of this token.
    pub fn kind(&self) -> (r: i32)
        ensures
            r as int == kind_of(self@),
    {
        match self {
            Token::Int(_) => TOK_INT,
            Token::StrLit(_) => TOK_STR_LIT,
            Token::Bool(_) => TOK_BOOL,
            Token::Iden(_) => TOK_IDEN,
            Token::Punct(c) => *c,
        }
    }

    /// The integer payload, for integer-literal tokens.
    pub fn get_int_val(&self) -> (r: Option<i32>)
        ensures
            match self@ {
                TokV::Int(v) => r == Some(v),
                _ => r is None,
            },
    {
        match self {
            Token::Int(v) => Some(*v),
            _ => None,
        }
    }

    /// The text payload, for string-literal and identifier tokens.
    pub fn get_str_val(&self) -> (r: Option<&String>)
        ensures
            match self@ {
                TokV::StrLit(s) => r matches Some(t) && t@ == s,
                TokV::Iden(s) => r matches Some(t) && t@ == s,
                _ => r is None,
            },
    {
        match self {
            Token::StrLit(s) => Some(s),
            Token::Iden(s) => Some(s),
            _ => None,
        }
    }

    /// The boolean payload, for boolean-literal tokens.
    pub fn get_bool_val(&self) -> (r: Option<bool>)
        ensures
            match self@ {
                TokV::Bool(b) => r == Some(b),
                _ => r is None,
            },
    {
        match self {
            Token::Bool(b) => Some(*b),
            _ => None,
        }
    }
}

/// A syntax diagnostic. `Expected(k)` records that a token of kind `k`
/// (a delimiter such as `(`, `)` or `,`) was required where a different
/// token, or the end of the stream, stood; `ExpectedExpr` records that a
/// binary operator was not followed by a valid expression.
#[derive(Debug, Clone, Copy, PartialEq, Eq, Structural)]
pub enum Diag {
    Expected(i32),
    ExpectedExpr,
}

/// The views of a token sequence, in order.
pub open spec fn views_of(ts: Seq<Token>) -> Seq<TokV> {
    Seq::new(ts.len(), |i: int| ts[i]@)
}

/// Appending a token to a sequence appends its model to the sequence's
/// model.
pub proof fn lemma_views_of_push(ts: Seq<Token>, tok: Token)
    ensures
        views_of(ts.push(tok)) == views_of(ts).push(tok@),
{
    assert(views_of(ts.push(tok)) =~= views_of(ts).push(tok@));
}

/// An ordered, position-tracked cursor over a token stream, with a
/// diagnostic slot through which the parser reports syntax errors.
pub struct Lexer {
    pub tokens: Vec<Token>,
    pub pos: usize,
    pub diag: Option<Diag>,
}

impl Lexer {
    /// The token stream, as token models.
    pub open spec fn toks(&self) -> Seq<TokV> {
        views_of(self.tokens@)
    }

    /// The cursor position as a mathematical integer.
    pub open spec fn at(&self) -> int {
        self.pos as int
    }

    /// The position never runs past the end of the stream.
    pub open spec fn wf(&self) -> bool {
        self.pos <= self.tokens@.len()
    }

    /// A fresh cursor at the start of the given stream, with no diagnostic.
    pub fn new(tokens: Vec<Token>) -> (r: Lexer)
        ensures
            r.toks() == views_of(tokens@),
            r.at() == 0,
            r.diag is None,
            r.wf(),
    {
        Lexer { tokens, pos: 0, diag: None }
    }

    /// Whether the stream is exhausted.
    pub fn empty(&self) -> (r: bool)
        ensures
            r == (self.at() >= self.toks().len()),
    {
        self.pos >= self.tokens.len()
    }

    /// The current token. May only be called when a token remains.
    pub fn front(&self) -> (r: &Token)
        requires
            self.at() < self.toks().len(),
        ensures
            r@ == self.toks()[self.at()],
    {
        &self.tokens[self.pos]
    }

    /// Consume the current token.
    pub fn eat(&mut self)
        requires
            old(self).at() < old(self).toks().len(),
        ensures
            final(self).tokens == old(self).tokens,
            final(self).diag == old(self).diag,
            final(self).at() == old(self).at() + 1,
    {
        proof {
            assert(self.pos < self.tokens.len());
        }
        self.pos = self.pos + 1;
    }

    /// Whether a token remains and its kind code is `kind`.
    pub fn is_token_kind(&self, kind: i32) -> (r: bool)
        ensures
            r == (self.at() < self.toks().len() && kind_of(self.toks()[self.at()])
                == kind as int),
    {
        self.pos < self.tokens.len() && self.tokens[self.pos].kind() == kind
    }

    /// Require the current token to have kind code `kind`. On success
    /// nothing changes and `true` comes back; otherwise (wrong kind, or an
    /// exhausted stream) the diagnostic `Expected(kind)` is recorded and
    /// `false` comes back. The token, if any, is not consumed either way.
    pub fn assert_token_kind(&mut self, kind: i32) -> (r: bool)
        ensures
            final(self).tokens == old(self).tokens,
            final(self).at() == old(self).at(),
            r == (old(self).at() < old(self).toks().len() && kind_of(
                old(self).toks()[old(self).at()],
            ) == kind as int),
            r ==> final(self).diag == old(self).diag,
            !r ==> final(self).diag == Some(Diag::Expected(kind)),
    {
        if self.pos < self.tokens.len() && self.tokens[self.pos].kind() == kind {
            true
        } else {
            self.diag = Some(Diag::Expected(kind));
            false
        }
    }

    /// Record a diagnostic.
    pub fn error(&mut self, d: Diag)
        ensures
            final(self).tokens == old(self).tokens,
            final(self).at() == old(self).at(),
            final(self).diag == Some(d),
    {
        self.diag = Some(d);
    }
}

} // verus!
