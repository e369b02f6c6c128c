//! Positioned tokens and their spec-level models.

use vstd::prelude::*;

verus! {

/// The additive operators `+` and `-`.
#[derive(Debug, Clone, Copy, PartialEq, Eq, Structural)]
pub enum AddOperator {
    Add,
    Sub,
}

/// The multiplicative operators `*`, `/` and `%`.
#[derive(Debug, Clone, Copy, PartialEq, Eq, Structural)]
pub enum MulOperator {
    Mul,
    Div,
    Mod,
}

/// The exponential operators `**` (power) and `//` (root).
#[derive(Debug, Clone, Copy, PartialEq, Eq, Structural)]
pub enum ExpOperator {
    Power,
    Root,
}

/// What a token is, with the payload of number and identifier tokens.
/// Number payloads are `f32` bit patterns.
#[derive(Debug, PartialEq)]
pub enum TokenValue {
    Number(u32),
    AddOperator(AddOperator),
    MulOperator(MulOperator),
    ExpOperator(ExpOperator),
    OpenBracket,
    CloseBracket,
    Identifier(String),
    Let,
    Equals,
    LastResult,
    Eof,
}

/// Spec-level mirror of [`TokenValue`], with identifier text as a character
/// sequence.
pub enum TokenValueModel {
    Number(u32),
    AddOperator(AddOperator),
    MulOperator(MulOperator),
    ExpOperator(ExpOperator),
    OpenBracket,
    CloseBracket,
    Identifier(Seq<char>),
    Let,
    Equals,
    LastResult,
    Eof,
}

impl View for TokenValue {
    type V = TokenValueModel;

    open spec fn view(&self) -> TokenValueModel {
        match self {
            TokenValue::Number(bits) => TokenValueModel::Number(*bits),
            TokenValue::AddOperator(op) => TokenValueModel::AddOperator(*op),
            TokenValue::MulOperator(op) => TokenValueModel::MulOperator(*op),
            TokenValue::ExpOperator(op) => TokenValueModel::ExpOperator(*op),
            TokenValue::OpenBracket => TokenValueModel::OpenBracket,
            TokenValue::CloseBracket => TokenValueModel::CloseBracket,
            TokenValue::Identifier(name) => TokenValueModel::Identifier(name@),
            TokenValue::Let => TokenValueModel::Let,
            TokenValue::Equals => TokenValueModel::Equals,
            TokenValue::LastResult => TokenValueModel::LastResult,
            TokenValue::Eof => TokenValueModel::Eof,
        }
    }
}

impl TokenValue {
    /// Returns a structurally equal copy of this token value.
    pub fn duplicate(&self) -> (r: TokenValue)
        ensures
            r@ == self@,
    {
        match self {
            TokenValue::Number(bits) => TokenValue::Number(*bits),
            TokenValue::AddOperator(op) => TokenValue::AddOperator(*op),
            TokenValue::MulOperator(op) => TokenValue::MulOperator(*op),
            TokenValue::ExpOperator(op) => TokenValue::ExpOperator(*op),
            TokenValue::OpenBracket => TokenValue::OpenBracket,
            TokenValue::CloseBracket => TokenValue::CloseBracket,
            TokenValue::Identifier(name) => TokenValue::Identifier(name.clone()),
            TokenValue::Let => TokenValue::Let,
            TokenValue::Equals => TokenValue::Equals,
            TokenValue::LastResult => TokenValue::LastResult,
            TokenValue::Eof => TokenValue::Eof,
        }
    }
}

/// Spec-level mirror of [`Token`].
pub struct TokenModel {
    pub value: TokenValueModel,
    pub src: Seq<char>,
    pub start: int,
    pub end: int,
}

/// A token with the source text it was read from and its position in the
/// input, as inclusive character offsets.
#[derive(Debug, PartialEq)]
pub struct Token {
    pub value: TokenValue,
    pub src: String,
    pub start: usize,
    pub end: usize,
}

impl View for Token {
    type V = TokenModel;

    open spec fn view(&self) -> TokenModel {
        TokenModel {
            value: self.value@,
            src: self.src@,
            start: self.start as int,
            end: self.end as int,
        }
    }
}

impl Token {
    /// Builds a token from its parts.
    pub fn new(value: TokenValue, src: String, start: usize, end: usize) -> (t: Token)
        ensures
            t@ == (TokenModel { value: value@, src: src@, start: start as int, end: end as int }),
    {
        Token { value, src, start, end }
    }

    /// Returns a structurally equal copy of this token.
    pub fn duplicate(&self) -> (t: Token)
        ensures
            t@ == self@,
    {
        Token {
            value: self.value.duplicate(),
            src: self.src.clone(),
            start: self.start,
            end: self.end,
        }
    }
}

} // verus!
