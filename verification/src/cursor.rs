//! A forward-seekable pointer over the tokenized input.

use vstd::prelude::*;

use crate::error::{Error, ErrorModel};
use crate::token::{AddOperator, ExpOperator, MulOperator, Token, TokenModel, TokenValue, TokenValueModel};

verus! {

/// Compares two token values structurally.
pub fn token_value_matches(a: &TokenValue, b: &TokenValue) -> (r: bool)
    ensures
        r == (a@ == b@),
{
    match a {
        TokenValue::Number(x) => match b {
            TokenValue::Number(y) => *x == *y,
            _ => false,
        },
        TokenValue::AddOperator(x) => match b {
            TokenValue::AddOperator(y) => *x == *y,
            _ => false,
        },
        TokenValue::MulOperator(x) => match b {
            TokenValue::MulOperator(y) => *x == *y,
            _ => false,
        },
        TokenValue::ExpOperator(x) => match b {
            TokenValue::ExpOperator(y) => *x == *y,
            _ => false,
        },
        TokenValue::OpenBracket => matches!(b, TokenValue::OpenBracket),
        TokenValue::CloseBracket => matches!(b, TokenValue::CloseBracket),
        TokenValue::Identifier(x) => match b {
            TokenValue::Identifier(y) => x.eq(y),
            _ => false,
        },
        TokenValue::Let => matches!(b, TokenValue::Let),
        TokenValue::Equals => matches!(b, TokenValue::Equals),
        TokenValue::LastResult => matches!(b, TokenValue::LastResult),
        TokenValue::Eof => matches!(b, TokenValue::Eof),
    }
}

/// The token sequence with a read pointer that only moves forward.
pub struct Cursor {
    tokens: Vec<Token>,
    pointer: usize,
}

impl Cursor {
    /// The tokens as their spec-level models.
    pub closed spec fn toks(&self) -> Seq<TokenModel> {
        Seq::new(self.tokens@.len(), |i: int| self.tokens@[i]@)
    }

    /// The read position.
    pub closed spec fn pos(&self) -> int {
        self.pointer as int
    }

    /// The pointer never runs past the end of the sequence.
    pub closed spec fn wf(&self) -> bool {
        self.pointer as int <= self.tokens@.len()
    }

    /// Wraps a token sequence with the read pointer at its start.
    pub fn new(tokens: Vec<Token>) -> (c: Cursor)
        ensures
            c.wf(),
            c.toks() == Seq::new(tokens@.len(), |i: int| tokens@[i]@),
            c.pos() == 0,
    {
        Cursor { tokens, pointer: 0 }
    }

    /// The token under the read pointer, if any.
    pub fn current(&self) -> (r: Option<Token>)
        requires
            self.wf(),
        ensures
            match r {
                Some(t) => self.pos() < self.toks().len() && t@ == self.toks()[self.pos()],
                None => self.pos() >= self.toks().len(),
            },
    {
        if self.pointer < self.tokens.len() {
            Some(self.tokens[self.pointer].duplicate())
        } else {
            None
        }
    }

    /// One-token lookahead: the token after the current one, if any.
    pub fn next(&self) -> (r: Option<Token>)
        requires
            self.wf(),
        ensures
            match r {
                Some(t) => self.pos() + 1 < self.toks().len() && t@ == self.toks()[self.pos() + 1],
                None => self.pos() + 1 >= self.toks().len(),
            },
    {
        if self.pointer < self.tokens.len() && self.pointer + 1 < self.tokens.len() {
            Some(self.tokens[self.pointer + 1].duplicate())
        } else {
            None
        }
    }

    /// Returns the current token and advances past it.
    pub fn consume(&mut self) -> (r: Option<Token>)
        requires
            old(self).wf(),
        ensures
            final(self).wf(),
            final(self).pos() <= final(self).toks().len(),
            final(self).toks() == old(self).toks(),
            match r {
                Some(t) => {
                    &&& old(self).pos() < old(self).toks().len()
                    &&& t@ == old(self).toks()[old(self).pos()]
                    &&& final(self).pos() == old(self).pos() + 1
                },
                None => old(self).pos() >= old(self).toks().len() && final(self).pos() == old(self).pos(),
            },
    {
        if self.pointer < self.tokens.len() {
            let t = self.tokens[self.pointer].duplicate();
            self.pointer = self.pointer + 1;
            Some(t)
        } else {
            None
        }
    }

    /// Consumes the current token, which must be of the expected value;
    /// otherwise reports `UnexpectedToken`, or `UnexpectedEndOfInput` if the
    /// stream was already at its end.
    pub fn expect(&mut self, expected: &TokenValue) -> (r: Result<Token, Error>)
        requires
            old(self).wf(),
        ensures
            final(self).wf(),
            final(self).pos() <= final(self).toks().len(),
            final(self).toks() == old(self).toks(),
            match r {
                Ok(t) => {
                    &&& old(self).pos() < old(self).toks().len()
                    &&& t@ == old(self).toks()[old(self).pos()]
                    &&& t@.value == expected@
                    &&& final(self).pos() == old(self).pos() + 1
                },
                Err(e) => {
                    &&& if old(self).pos() >= old(self).toks().len() {
                        e@ == ErrorModel::UnexpectedEndOfInput && final(self).pos() == old(self).pos()
                    } else {
                        {
                            let t = old(self).toks()[old(self).pos()];
                            &&& t.value != expected@
                            &&& final(self).pos() == old(self).pos() + 1
                            &&& if t.value is Eof {
                                e@ == ErrorModel::UnexpectedEndOfInput
                            } else {
                                e@ == (ErrorModel::UnexpectedToken {
                                    token: t.src,
                                    start: t.start,
                                    end: t.end,
                                })
                            }
                        }
                    }
                },
            },
    {
        match self.consume() {
            None => Err(Error::UnexpectedEndOfInput),
            Some(token) => {
                if token_value_matches(&token.value, expected) {
                    Ok(token)
                } else if token_value_matches(&token.value, &TokenValue::Eof) {
                    Err(Error::UnexpectedEndOfInput)
                } else {
                    Err(Error::UnexpectedToken {
                        token: token.src,
                        start: token.start,
                        end: token.end,
                    })
                }
            },
        }
    }

    /// Consumes and returns the current token's additive operator, leaving
    /// the cursor unmoved if the current token is something else.
    pub fn get_add_op(&mut self) -> (r: Result<Option<AddOperator>, Error>)
        requires
            old(self).wf(),
        ensures
            final(self).wf(),
            final(self).pos() <= final(self).toks().len(),
            final(self).toks() == old(self).toks(),
            match r {
                Ok(Some(op)) => {
                    &&& old(self).pos() < old(self).toks().len()
                    &&& old(self).toks()[old(self).pos()].value == TokenValueModel::AddOperator(op)
                    &&& final(self).pos() == old(self).pos() + 1
                },
                Ok(None) => {
                    &&& old(self).pos() < old(self).toks().len()
                    &&& !(old(self).toks()[old(self).pos()].value is AddOperator)
                    &&& final(self).pos() == old(self).pos()
                },
                Err(e) => {
                    &&& old(self).pos() >= old(self).toks().len()
                    &&& e@ == ErrorModel::UnexpectedEndOfInput
                    &&& final(self).pos() == old(self).pos()
                },
            },
    {
        if self.pointer >= self.tokens.len() {
            return Err(Error::UnexpectedEndOfInput);
        }
        match &self.tokens[self.pointer].value {
            TokenValue::AddOperator(op) => {
                let found = *op;
                self.pointer = self.pointer + 1;
                Ok(Some(found))
            },
            _ => Ok(None),
        }
    }

    /// Consumes and returns the current token's multiplicative operator,
    /// leaving the cursor unmoved if the current token is something else.
    pub fn get_mul_op(&mut self) -> (r: Result<Option<MulOperator>, Error>)
        requires
            old(self).wf(),
        ensures
            final(self).wf(),
            final(self).pos() <= final(self).toks().len(),
            final(self).toks() == old(self).toks(),
            match r {
                Ok(Some(op)) => {
                    &&& old(self).pos() < old(self).toks().len()
                    &&& old(self).toks()[old(self).pos()].value == TokenValueModel::MulOperator(op)
                    &&& final(self).pos() == old(self).pos() + 1
                },
                Ok(None) => {
                    &&& old(self).pos() < old(self).toks().len()
                    &&& !(old(self).toks()[old(self).pos()].value is MulOperator)
                    &&& final(self).pos() == old(self).pos()
                },
                Err(e) => {
                    &&& old(self).pos() >= old(self).toks().len()
                    &&& e@ == ErrorModel::UnexpectedEndOfInput
                    &&& final(self).pos() == old(self).pos()
                },
            },
    {
        if self.pointer >= self.tokens.len() {
            return Err(Error::UnexpectedEndOfInput);
        }
        match &self.tokens[self.pointer].value {
            TokenValue::MulOperator(op) => {
                let found = *op;
                self.pointer = self.pointer + 1;
                Ok(Some(found))
            },
            _ => Ok(None),
        }
    }

    /// Consumes and returns the current token's exponential operator,
    /// leaving the cursor unmoved if the current token is something else.
    pub fn get_exp_op(&mut self) -> (r: Result<Option<ExpOperator>, Error>)
        requires
            old(self).wf(),
        ensures
            final(self).wf(),
            final(self).pos() <= final(self).toks().len(),
            final(self).toks() == old(self).toks(),
            match r {
                Ok(Some(op)) => {
                    &&& old(self).pos() < old(self).toks().len()
                    &&& old(self).toks()[old(self).pos()].value == TokenValueModel::ExpOperator(op)
                    &&& final(self).pos() == old(self).pos() + 1
                },
                Ok(None) => {
                    &&& old(self).pos() < old(self).toks().len()
                    &&& !(old(self).toks()[old(self).pos()].value is ExpOperator)
                    &&& final(self).pos() == old(self).pos()
                },
                Err(e) => {
                    &&& old(self).pos() >= old(self).toks().len()
                    &&& e@ == ErrorModel::UnexpectedEndOfInput
                    &&& final(self).pos() == old(self).pos()
                },
            },
    {
        if self.pointer >= self.tokens.len() {
            return Err(Error::UnexpectedEndOfInput);
        }
        match &self.tokens[self.pointer].value {
            TokenValue::ExpOperator(op) => {
                let found = *op;
                self.pointer = self.pointer + 1;
                Ok(Some(found))
            },
            _ => Ok(None),
        }
    }
}

} // verus!
