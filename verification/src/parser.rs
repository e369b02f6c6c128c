//! The recursive-descent parser/evaluator.
//!
//! The grammar, lowest to highest precedence:
//!
//! ```text
//! statement      := "let" IDENT "=" statement
//!                 | additive
//! additive       := multiplicative ( ("+"|"-") multiplicative )*
//! multiplicative := exponential ( ("*"|"/"|"%") exponential )*
//! exponential    := atomic ( ("**"|"//") atomic )*
//! atomic         := NUMBER | "$" | IDENT | ("+"|"-") atomic | "(" additive ")"
//! ```
//!
//! All chains evaluate left to right as encountered; the exponent operators
//! in particular chain left to right, not right-associatively.
//!
//! The spec functions below mirror the parse exactly.  An evaluation that
//! reaches host code — a registered native function, or the host's power
//! primitive — has the outcome [`ExprOut::Host`]: from that point on the
//! result is the host's, and the contracts promise nothing about it.  On
//! every other path the contracts pin the result, the cursor position, the
//! environment and the exact error.

use vstd::prelude::*;

use crate::arguments::Arguments;
use crate::cursor::Cursor;
use crate::environment::{EnvModel, Environment};
use crate::error::{Error, ErrorModel};
use crate::handler::Handler;
use crate::number::{
    F32_ONE, add_bits, div_bits, f32_add, f32_div, f32_mul, f32_rem, f32_sub, is_zero, mul_bits,
    neg_bits, rem_bits, spec_is_zero, spec_neg, sub_bits,
};
use crate::token::{
    AddOperator, ExpOperator, MulOperator, TokenModel, TokenValue, TokenValueModel,
};
use crate::variable::{VarModel, Variable};

verus! {

/// How far the parse can still run from position `p`.
pub open spec fn remaining(t: Seq<TokenModel>, p: int) -> nat {
    if p <= t.len() {
        (t.len() - p) as nat
    } else {
        0
    }
}

/// Outcome of parsing one production below the statement level.  These
/// productions never change the environment.
pub enum ExprOut {
    /// The parse succeeded with value `v`, leaving the cursor at `pos`.
    Val { v: u32, pos: int },
    /// The parse failed with error `e`, leaving the cursor at `pos`.
    Fail { e: ErrorModel, pos: int },
    /// The parse reached host code; nothing further is specified.
    Host,
}

/// Outcome of parsing a statement, which may bind variables.
pub enum StmtOut {
    Val { v: u32, pos: int, env: EnvModel },
    Fail { e: ErrorModel, env: EnvModel },
    Host,
}

/// Outcome of demanding one fixed token, as `Cursor::expect` reports it.
pub enum ExpectOut {
    Hit { pos: int },
    Miss { e: ErrorModel, pos: int },
}

/// What `Cursor::expect` does at position `p` for the expected value `v`.
pub open spec fn spec_expect(t: Seq<TokenModel>, p: int, v: TokenValueModel) -> ExpectOut {
    if p >= t.len() {
        ExpectOut::Miss { e: ErrorModel::UnexpectedEndOfInput, pos: p }
    } else if t[p].value == v {
        ExpectOut::Hit { pos: p + 1 }
    } else if t[p].value is Eof {
        ExpectOut::Miss { e: ErrorModel::UnexpectedEndOfInput, pos: p + 1 }
    } else {
        ExpectOut::Miss {
            e: ErrorModel::UnexpectedToken { token: t[p].src, start: t[p].start, end: t[p].end },
            pos: p + 1,
        }
    }
}

/// The atomic production: a number, the last result, an identifier, a
/// signed atomic, or a bracketed additive.
pub open spec fn spec_atomic(t: Seq<TokenModel>, p: int, env: EnvModel) -> ExprOut
    decreases remaining(t, p), 1int,
{
    if p >= t.len() {
        ExprOut::Fail { e: ErrorModel::UnexpectedEndOfInput, pos: p }
    } else {
        match t[p].value {
            TokenValueModel::Number(bits) => ExprOut::Val { v: bits, pos: p + 1 },
            TokenValueModel::Identifier(name) => {
                if !env.vars.contains_key(name) {
                    ExprOut::Fail {
                        e: ErrorModel::VariableNotFound {
                            var: name,
                            start: t[p].start,
                            end: t[p].end,
                        },
                        pos: p + 1,
                    }
                } else {
                    match env.vars[name] {
                        VarModel::Const(bits) => ExprOut::Val { v: bits, pos: p + 1 },
                        VarModel::Custom => ExprOut::Host,
                    }
                }
            },
            TokenValueModel::LastResult => {
                match env.last {
                    Some(bits) => ExprOut::Val { v: bits, pos: p + 1 },
                    None => ExprOut::Fail {
                        e: ErrorModel::VariableNotFound {
                            var: t[p].src,
                            start: t[p].start,
                            end: t[p].end,
                        },
                        pos: p + 1,
                    },
                }
            },
            TokenValueModel::AddOperator(op) => {
                match spec_atomic(t, p + 1, env) {
                    ExprOut::Val { v, pos } => {
                        let signed = if op is Sub {
                            spec_neg(v)
                        } else {
                            v
                        };
                        ExprOut::Val { v: signed, pos }
                    },
                    ExprOut::Fail { e, pos } => ExprOut::Fail { e, pos },
                    ExprOut::Host => ExprOut::Host,
                }
            },
            TokenValueModel::OpenBracket => {
                match spec_additive(t, p + 1, env) {
                    ExprOut::Val { v, pos } => {
                        match spec_expect(t, pos, TokenValueModel::CloseBracket) {
                            ExpectOut::Hit { pos: pos2 } => ExprOut::Val { v, pos: pos2 },
                            ExpectOut::Miss { e, pos: pos2 } => ExprOut::Fail { e, pos: pos2 },
                        }
                    },
                    ExprOut::Fail { e, pos } => {
                        // The bracket production still demands its closing
                        // bracket after a failed inner parse; a failure
                        // there wins, else the inner error is kept.
                        match spec_expect(t, pos, TokenValueModel::CloseBracket) {
                            ExpectOut::Hit { pos: pos2 } => ExprOut::Fail { e, pos: pos2 },
                            ExpectOut::Miss { e: e2, pos: pos2 } => ExprOut::Fail {
                                e: e2,
                                pos: pos2,
                            },
                        }
                    },
                    ExprOut::Host => ExprOut::Host,
                }
            },
            TokenValueModel::Eof => ExprOut::Fail {
                e: ErrorModel::UnexpectedEndOfInput,
                pos: p + 1,
            },
            _ => ExprOut::Fail {
                e: ErrorModel::UnexpectedToken {
                    token: t[p].src,
                    start: t[p].start,
                    end: t[p].end,
                },
                pos: p + 1,
            },
        }
    }
}

/// The exponent chain after a left operand `acc` has been parsed up to `p`.
pub open spec fn spec_exp_rest(t: Seq<TokenModel>, p: int, env: EnvModel, acc: u32) -> ExprOut
    decreases remaining(t, p), 0int,
{
    if p >= t.len() {
        ExprOut::Fail { e: ErrorModel::UnexpectedEndOfInput, pos: p }
    } else {
        match t[p].value {
            TokenValueModel::ExpOperator(op) => {
                match spec_atomic(t, p + 1, env) {
                    ExprOut::Fail { e, pos } => ExprOut::Fail { e, pos },
                    ExprOut::Host => ExprOut::Host,
                    ExprOut::Val { v: right, pos } => {
                        if op is Root && spec_is_zero(right) {
                            ExprOut::Fail {
                                e: ErrorModel::Runtime { msg: "Division by 0!"@ },
                                pos,
                            }
                        } else if !env.power {
                            ExprOut::Fail {
                                e: ErrorModel::Runtime { msg: "No power function registered!"@ },
                                pos,
                            }
                        } else {
                            // The host's power primitive computes the value;
                            // nothing further is specified.
                            ExprOut::Host
                        }
                    },
                }
            },
            _ => ExprOut::Val { v: acc, pos: p },
        }
    }
}

/// The exponential production.
pub open spec fn spec_exponential(t: Seq<TokenModel>, p: int, env: EnvModel) -> ExprOut
    decreases remaining(t, p), 2int,
{
    match spec_atomic(t, p, env) {
        ExprOut::Fail { e, pos } => ExprOut::Fail { e, pos },
        ExprOut::Host => ExprOut::Host,
        ExprOut::Val { v, pos } => {
            let from = if pos > p {
                pos
            } else {
                p
            };
            spec_exp_rest(t, from, env, v)
        },
    }
}

/// The multiplicative chain after a left operand `acc` parsed up to `p`.
pub open spec fn spec_mul_rest(t: Seq<TokenModel>, p: int, env: EnvModel, acc: u32) -> ExprOut
    decreases remaining(t, p), 0int,
{
    if p >= t.len() {
        ExprOut::Fail { e: ErrorModel::UnexpectedEndOfInput, pos: p }
    } else {
        match t[p].value {
            TokenValueModel::MulOperator(op) => {
                match spec_exponential(t, p + 1, env) {
                    ExprOut::Fail { e, pos } => ExprOut::Fail { e, pos },
                    ExprOut::Host => ExprOut::Host,
                    ExprOut::Val { v: right, pos } => {
                        let next = if pos > p + 1 {
                            pos
                        } else {
                            p + 2
                        };
                        if op is Mul {
                            spec_mul_rest(t, next, env, f32_mul(acc, right))
                        } else if spec_is_zero(right) {
                            ExprOut::Fail {
                                e: ErrorModel::Runtime { msg: "Division by 0!"@ },
                                pos,
                            }
                        } else if op is Div {
                            spec_mul_rest(t, next, env, f32_div(acc, right))
                        } else {
                            spec_mul_rest(t, next, env, f32_rem(acc, right))
                        }
                    },
                }
            },
            _ => ExprOut::Val { v: acc, pos: p },
        }
    }
}

/// The multiplicative production.
pub open spec fn spec_multiplicative(t: Seq<TokenModel>, p: int, env: EnvModel) -> ExprOut
    decreases remaining(t, p), 3int,
{
    match spec_exponential(t, p, env) {
        ExprOut::Fail { e, pos } => ExprOut::Fail { e, pos },
        ExprOut::Host => ExprOut::Host,
        ExprOut::Val { v, pos } => {
            let from = if pos > p {
                pos
            } else {
                p
            };
            spec_mul_rest(t, from, env, v)
        },
    }
}

/// The additive chain after a left operand `acc` parsed up to `p`.
pub open spec fn spec_add_rest(t: Seq<TokenModel>, p: int, env: EnvModel, acc: u32) -> ExprOut
    decreases remaining(t, p), 0int,
{
    if p >= t.len() {
        ExprOut::Fail { e: ErrorModel::UnexpectedEndOfInput, pos: p }
    } else {
        match t[p].value {
            TokenValueModel::AddOperator(op) => {
                match spec_multiplicative(t, p + 1, env) {
                    ExprOut::Fail { e, pos } => ExprOut::Fail { e, pos },
                    ExprOut::Host => ExprOut::Host,
                    ExprOut::Val { v: right, pos } => {
                        let next = if pos > p + 1 {
                            pos
                        } else {
                            p + 2
                        };
                        let acc2 = if op is Add {
                            f32_add(acc, right)
                        } else {
                            f32_sub(acc, right)
                        };
                        spec_add_rest(t, next, env, acc2)
                    },
                }
            },
            _ => ExprOut::Val { v: acc, pos: p },
        }
    }
}

/// The additive production.
pub open spec fn spec_additive(t: Seq<TokenModel>, p: int, env: EnvModel) -> ExprOut
    decreases remaining(t, p), 4int,
{
    match spec_multiplicative(t, p, env) {
        ExprOut::Fail { e, pos } => ExprOut::Fail { e, pos },
        ExprOut::Host => ExprOut::Host,
        ExprOut::Val { v, pos } => {
            let from = if pos > p {
                pos
            } else {
                p
            };
            spec_add_rest(t, from, env, v)
        },
    }
}

/// Lifts an expression outcome to the statement level, with the
/// environment unchanged.
pub open spec fn spec_lift(out: ExprOut, env: EnvModel) -> StmtOut {
    match out {
        ExprOut::Val { v, pos } => StmtOut::Val { v, pos, env },
        ExprOut::Fail { e, pos } => StmtOut::Fail { e, env },
        ExprOut::Host => StmtOut::Host,
    }
}

/// Binds `name` to the result of the statement outcome `out`, as an
/// assignment does once its right-hand side has been evaluated.
pub open spec fn spec_bind(out: StmtOut, name: Seq<char>) -> StmtOut {
    match out {
        StmtOut::Val { v, pos, env } => StmtOut::Val {
            v,
            pos,
            env: EnvModel { vars: env.vars.insert(name, VarModel::Const(v)), ..env },
        },
        StmtOut::Fail { e, env } => StmtOut::Fail { e, env },
        StmtOut::Host => StmtOut::Host,
    }
}

/// The statement production: the `let` assignment form, or an additive
/// expression.  An assignment evaluates its right-hand side first and then
/// binds the name, so a failing right-hand side leaves the name unbound
/// while any assignments nested inside it persist.
pub open spec fn spec_statement(t: Seq<TokenModel>, p: int, env: EnvModel) -> StmtOut
    decreases remaining(t, p), 5int,
{
    if p >= t.len() {
        StmtOut::Fail { e: ErrorModel::UnexpectedEndOfInput, env }
    } else if t[p].value is Let {
        if p + 1 >= t.len() {
            StmtOut::Fail { e: ErrorModel::UnexpectedEndOfInput, env }
        } else {
            match t[p + 1].value {
                TokenValueModel::Identifier(name) => {
                    match spec_expect(t, p + 2, TokenValueModel::Equals) {
                        ExpectOut::Miss { e, pos } => StmtOut::Fail { e, env },
                        ExpectOut::Hit { pos } => spec_bind(spec_statement(t, p + 3, env), name),
                    }
                },
                TokenValueModel::Eof => StmtOut::Fail {
                    e: ErrorModel::UnexpectedEndOfInput,
                    env,
                },
                _ => StmtOut::Fail {
                    e: ErrorModel::UnexpectedToken {
                        token: t[p + 1].src,
                        start: t[p + 1].start,
                        end: t[p + 1].end,
                    },
                    env,
                },
            }
        }
    } else {
        spec_lift(spec_additive(t, p, env), env)
    }
}

/// One whole evaluation of a token sequence: a statement, the demand that
/// every token was consumed, and the update of the last-result cell.
pub open spec fn spec_evaluate(t: Seq<TokenModel>, p: int, env: EnvModel) -> StmtOut {
    match spec_statement(t, p, env) {
        StmtOut::Fail { e, env: env2 } => StmtOut::Fail { e, env: env2 },
        StmtOut::Host => StmtOut::Host,
        StmtOut::Val { v, pos, env: env2 } => {
            match spec_expect(t, pos, TokenValueModel::Eof) {
                ExpectOut::Miss { e, pos: pos2 } => StmtOut::Fail { e, env: env2 },
                ExpectOut::Hit { pos: pos2 } => StmtOut::Val {
                    v,
                    pos: pos2,
                    env: EnvModel { last: Some(v), ..env2 },
                },
            }
        },
    }
}

/// The parser: a cursor over the tokens and the environment the
/// evaluation runs against.  The fields are reachable only inside this
/// crate, so host code holding a parser — a native handler mid-call —
/// can act on it through its methods alone.
pub struct Parser<H> {
    pub(crate) tokens: Cursor,
    pub(crate) env: Environment<H>,
}

impl<H> Parser<H> {
    /// The token sequence the parse is reading.
    pub closed spec fn source(&self) -> Seq<TokenModel> {
        self.tokens.toks()
    }

    /// The read position in that sequence.
    pub closed spec fn position(&self) -> int {
        self.tokens.pos()
    }

    /// The environment the parse reads its bindings from.
    pub closed spec fn bindings(&self) -> EnvModel {
        self.env@
    }

    /// The parse is in a usable state.
    pub closed spec fn wf(&self) -> bool {
        self.tokens.wf() && self.tokens.pos() <= self.tokens.toks().len()
    }

    /// Takes the environment back out of a finished parse.
    pub fn into_env(self) -> (env: Environment<H>)
        ensures
            env@ == self.bindings(),
    {
        self.env
    }

    /// A usable parse keeps its read position within the token sequence.
    pub proof fn lemma_wf_bounds(&self)
        requires
            self.wf(),
        ensures
            self.position() <= self.source().len(),
    {
    }
}

impl<H: Handler> Arguments for Parser<H> {
    closed spec fn source(&self) -> Seq<TokenModel> {
        Parser::<H>::source(self)
    }

    closed spec fn position(&self) -> int {
        Parser::<H>::position(self)
    }

    closed spec fn bindings(&self) -> EnvModel {
        Parser::<H>::bindings(self)
    }

    closed spec fn wf(&self) -> bool {
        Parser::<H>::wf(self)
    }

    fn get_next_arg(&mut self) -> (r: Result<u32, Error>) {
        self.evaluate_atomic()
    }
}

impl<H: Handler> Parser<H> {
    /// Pairs a cursor with the environment to evaluate against.
    pub fn new(tokens: Cursor, env: Environment<H>) -> (p: Parser<H>)
        requires
            tokens.wf(),
            tokens.pos() <= tokens.toks().len(),
        ensures
            p.wf(),
            p.source() == tokens.toks(),
            p.position() == tokens.pos(),
            p.bindings() == env@,
    {
        Parser { tokens, env }
    }

    /// Parses and evaluates one atomic expression.
    pub fn evaluate_atomic(&mut self) -> (r: Result<u32, Error>)
        requires
            old(self).wf(),
        ensures
            final(self).wf(),
            final(self).source() == old(self).source(),
            final(self).bindings() == old(self).bindings(),
            old(self).position() <= final(self).position(),
            final(self).position() <= final(self).source().len(),
            r is Ok ==> old(self).position() < final(self).position(),
            match spec_atomic(old(self).source(), old(self).position(), old(self).bindings()) {
                ExprOut::Val { v, pos } => r == Ok::<u32, Error>(v) && final(self).position() == pos,
                ExprOut::Fail { e, pos } => (r matches Err(err) && err@ == e)
                    && final(self).position() == pos,
                ExprOut::Host => true,
            },
        decreases remaining(old(self).source(), old(self).position()), 1int,
    {
        let token = match self.tokens.consume() {
            None => {
                return Err(Error::UnexpectedEndOfInput);
            },
            Some(tok) => tok,
        };
        match token.value {
            TokenValue::Number(bits) => Ok(bits),
            TokenValue::Identifier(id) => {
                match self.env.get_resolved(&id) {
                    None => Err(Error::VariableNotFound {
                        var: id,
                        start: token.start,
                        end: token.end,
                    }),
                    Some(Variable::Var(bits)) => Ok(bits),
                    Some(Variable::Fn(fun)) => fun.call(self),
                }
            },
            TokenValue::LastResult => {
                match self.env.get_last_result() {
                    Some(bits) => Ok(bits),
                    None => Err(Error::VariableNotFound {
                        var: token.src,
                        start: token.start,
                        end: token.end,
                    }),
                }
            },
            TokenValue::AddOperator(op) => {
                match op {
                    AddOperator::Add => self.evaluate_atomic(),
                    AddOperator::Sub => {
                        match self.evaluate_atomic() {
                            Ok(bits) => Ok(neg_bits(bits)),
                            Err(e) => Err(e),
                        }
                    },
                }
            },
            TokenValue::OpenBracket => {
                let value = self.evaluate_additive();
                match self.tokens.expect(&TokenValue::CloseBracket) {
                    Err(e) => Err(e),
                    Ok(_) => value,
                }
            },
            TokenValue::Eof => Err(Error::UnexpectedEndOfInput),
            _ => Err(Error::UnexpectedToken {
                token: token.src,
                start: token.start,
                end: token.end,
            }),
        }
    }

    /// Parses and evaluates one exponential expression: an atomic followed
    /// by the rest of its `**` / `//` chain.
    pub fn evaluate_exponential(&mut self) -> (r: Result<u32, Error>)
        requires
            old(self).wf(),
        ensures
            final(self).wf(),
            final(self).source() == old(self).source(),
            final(self).bindings() == old(self).bindings(),
            old(self).position() <= final(self).position(),
            final(self).position() <= final(self).source().len(),
            r is Ok ==> old(self).position() < final(self).position(),
            match spec_exponential(
                old(self).source(),
                old(self).position(),
                old(self).bindings(),
            ) {
                ExprOut::Val { v, pos } => r == Ok::<u32, Error>(v) && final(self).position() == pos,
                ExprOut::Fail { e, pos } => (r matches Err(err) && err@ == e)
                    && final(self).position() == pos,
                ExprOut::Host => true,
            },
        decreases remaining(old(self).source(), old(self).position()), 2int,
    {
        let left = match self.evaluate_atomic() {
            Err(e) => {
                return Err(e);
            },
            Ok(v) => v,
        };
        self.evaluate_exp_rest(left)
    }

    /// Continues an exponent chain left to right, with `acc` the value
    /// accumulated so far: each `**` or `//` step parses one atomic right
    /// operand, guards a zero root, and hands `acc` and the exponent to
    /// the host's power primitive, whose result re-enters as the next
    /// accumulator.  This is the continuation that follows each power
    /// call, with an exact contract for every value the host returns.
    pub fn evaluate_exp_rest(&mut self, acc: u32) -> (r: Result<u32, Error>)
        requires
            old(self).wf(),
        ensures
            final(self).wf(),
            final(self).source() == old(self).source(),
            final(self).bindings() == old(self).bindings(),
            old(self).position() <= final(self).position(),
            final(self).position() <= final(self).source().len(),
            match spec_exp_rest(
                old(self).source(),
                old(self).position(),
                old(self).bindings(),
                acc,
            ) {
                ExprOut::Val { v, pos } => r == Ok::<u32, Error>(v) && final(self).position() == pos,
                ExprOut::Fail { e, pos } => (r matches Err(err) && err@ == e)
                    && final(self).position() == pos,
                ExprOut::Host => true,
            },
        decreases remaining(old(self).source(), old(self).position()), 0int,
    {
        let op = match self.tokens.get_exp_op() {
            Err(e) => {
                return Err(e);
            },
            Ok(None) => {
                return Ok(acc);
            },
            Ok(Some(op)) => op,
        };
        let right = match self.evaluate_atomic() {
            Err(e) => {
                return Err(e);
            },
            Ok(v) => v,
        };
        let exponent = match op {
            ExpOperator::Power => right,
            ExpOperator::Root => {
                if is_zero(right) {
                    return Err(Error::Runtime("Division by 0!"));
                }
                div_bits(F32_ONE, right)
            },
        };
        match self.env.get_power_fn() {
            None => Err(Error::Runtime("No power function registered!")),
            Some(power) => {
                match power.pow(acc, exponent) {
                    Err(e) => Err(e),
                    Ok(v) => self.evaluate_exp_rest(v),
                }
            },
        }
    }

    /// Parses and evaluates one multiplicative expression: an exponential
    /// followed by the rest of its `*` / `/` / `%` chain.
    pub fn evaluate_multiplicative(&mut self) -> (r: Result<u32, Error>)
        requires
            old(self).wf(),
        ensures
            final(self).wf(),
            final(self).source() == old(self).source(),
            final(self).bindings() == old(self).bindings(),
            old(self).position() <= final(self).position(),
            final(self).position() <= final(self).source().len(),
            r is Ok ==> old(self).position() < final(self).position(),
            match spec_multiplicative(
                old(self).source(),
                old(self).position(),
                old(self).bindings(),
            ) {
                ExprOut::Val { v, pos } => r == Ok::<u32, Error>(v) && final(self).position() == pos,
                ExprOut::Fail { e, pos } => (r matches Err(err) && err@ == e)
                    && final(self).position() == pos,
                ExprOut::Host => true,
            },
        decreases remaining(old(self).source(), old(self).position()), 3int,
    {
        let left = match self.evaluate_exponential() {
            Err(e) => {
                return Err(e);
            },
            Ok(v) => v,
        };
        self.evaluate_mul_rest(left)
    }

    /// Continues a multiplicative chain left to right, with `acc` the
    /// value accumulated so far: each `*`, `/` or `%` step parses one
    /// exponential right operand, guards a zero divisor for `/` and `%`
    /// before anything is computed, and folds the operand in.  Like the
    /// exponent continuation, this carries an exact contract for every
    /// accumulator value, including one a host function produced.
    pub fn evaluate_mul_rest(&mut self, acc: u32) -> (r: Result<u32, Error>)
        requires
            old(self).wf(),
        ensures
            final(self).wf(),
            final(self).source() == old(self).source(),
            final(self).bindings() == old(self).bindings(),
            old(self).position() <= final(self).position(),
            final(self).position() <= final(self).source().len(),
            match spec_mul_rest(
                old(self).source(),
                old(self).position(),
                old(self).bindings(),
                acc,
            ) {
                ExprOut::Val { v, pos } => r == Ok::<u32, Error>(v) && final(self).position() == pos,
                ExprOut::Fail { e, pos } => (r matches Err(err) && err@ == e)
                    && final(self).position() == pos,
                ExprOut::Host => true,
            },
        decreases remaining(old(self).source(), old(self).position()), 0int,
    {
        let op = match self.tokens.get_mul_op() {
            Err(e) => {
                return Err(e);
            },
            Ok(None) => {
                return Ok(acc);
            },
            Ok(Some(op)) => op,
        };
        let right = match self.evaluate_exponential() {
            Err(e) => {
                return Err(e);
            },
            Ok(v) => v,
        };
        match op {
            MulOperator::Mul => self.evaluate_mul_rest(mul_bits(acc, right)),
            MulOperator::Div => {
                if is_zero(right) {
                    return Err(Error::Runtime("Division by 0!"));
                }
                self.evaluate_mul_rest(div_bits(acc, right))
            },
            MulOperator::Mod => {
                if is_zero(right) {
                    return Err(Error::Runtime("Division by 0!"));
                }
                self.evaluate_mul_rest(rem_bits(acc, right))
            },
        }
    }

    /// Parses and evaluates one additive expression: a multiplicative
    /// followed by the rest of its `+` / `-` chain.
    pub fn evaluate_additive(&mut self) -> (r: Result<u32, Error>)
        requires
            old(self).wf(),
        ensures
            final(self).wf(),
            final(self).source() == old(self).source(),
            final(self).bindings() == old(self).bindings(),
            old(self).position() <= final(self).position(),
            final(self).position() <= final(self).source().len(),
            r is Ok ==> old(self).position() < final(self).position(),
            match spec_additive(old(self).source(), old(self).position(), old(self).bindings()) {
                ExprOut::Val { v, pos } => r == Ok::<u32, Error>(v) && final(self).position() == pos,
                ExprOut::Fail { e, pos } => (r matches Err(err) && err@ == e)
                    && final(self).position() == pos,
                ExprOut::Host => true,
            },
        decreases remaining(old(self).source(), old(self).position()), 4int,
    {
        let left = match self.evaluate_multiplicative() {
            Err(e) => {
                return Err(e);
            },
            Ok(v) => v,
        };
        self.evaluate_add_rest(left)
    }

    /// Continues an additive chain left to right, with `acc` the value
    /// accumulated so far: each `+` or `-` step parses one multiplicative
    /// right operand and folds it in.
    pub fn evaluate_add_rest(&mut self, acc: u32) -> (r: Result<u32, Error>)
        requires
            old(self).wf(),
        ensures
            final(self).wf(),
            final(self).source() == old(self).source(),
            final(self).bindings() == old(self).bindings(),
            old(self).position() <= final(self).position(),
            final(self).position() <= final(self).source().len(),
            match spec_add_rest(
                old(self).source(),
                old(self).position(),
                old(self).bindings(),
                acc,
            ) {
                ExprOut::Val { v, pos } => r == Ok::<u32, Error>(v) && final(self).position() == pos,
                ExprOut::Fail { e, pos } => (r matches Err(err) && err@ == e)
                    && final(self).position() == pos,
                ExprOut::Host => true,
            },
        decreases remaining(old(self).source(), old(self).position()), 0int,
    {
        let op = match self.tokens.get_add_op() {
            Err(e) => {
                return Err(e);
            },
            Ok(None) => {
                return Ok(acc);
            },
            Ok(Some(op)) => op,
        };
        let right = match self.evaluate_multiplicative() {
            Err(e) => {
                return Err(e);
            },
            Ok(v) => v,
        };
        match op {
            AddOperator::Add => self.evaluate_add_rest(add_bits(acc, right)),
            AddOperator::Sub => self.evaluate_add_rest(sub_bits(acc, right)),
        }
    }

    /// Parses and evaluates one statement: an assignment, with or without
    /// the `let` keyword, or an additive expression.  An assignment
    /// evaluates its right-hand side first, then binds the name in the
    /// environment and yields the value.
    pub fn evaluate_statement(&mut self) -> (r: Result<u32, Error>)
        requires
            old(self).wf(),
        ensures
            final(self).wf(),
            final(self).source() == old(self).source(),
            old(self).position() <= final(self).position(),
            final(self).position() <= final(self).source().len(),
            final(self).bindings().last == old(self).bindings().last,
            final(self).bindings().power == old(self).bindings().power,
            match spec_statement(old(self).source(), old(self).position(), old(self).bindings()) {
                StmtOut::Val { v, pos, env } => r == Ok::<u32, Error>(v)
                    && final(self).position() == pos && final(self).bindings() == env,
                StmtOut::Fail { e, env } => (r matches Err(err) && err@ == e)
                    && final(self).bindings() == env,
                StmtOut::Host => true,
            },
        decreases remaining(old(self).source(), old(self).position()), 5int,
    {
        let current = match self.tokens.current() {
            None => {
                return Err(Error::UnexpectedEndOfInput);
            },
            Some(t) => t,
        };
        if matches!(current.value, TokenValue::Let) {
            match self.tokens.expect(&TokenValue::Let) {
                Err(e) => {
                    return Err(e);
                },
                Ok(_) => {},
            }
            let id_token = match self.tokens.consume() {
                None => {
                    return Err(Error::UnexpectedEndOfInput);
                },
                Some(t) => t,
            };
            let name = match id_token.value {
                TokenValue::Identifier(name) => name,
                TokenValue::Eof => {
                    return Err(Error::UnexpectedEndOfInput);
                },
                _ => {
                    return Err(Error::UnexpectedToken {
                        token: id_token.src,
                        start: id_token.start,
                        end: id_token.end,
                    });
                },
            };
            match self.tokens.expect(&TokenValue::Equals) {
                Err(e) => {
                    return Err(e);
                },
                Ok(_) => {},
            }
            let value = match self.evaluate_statement() {
                Err(e) => {
                    return Err(e);
                },
                Ok(v) => v,
            };
            self.env.assign_var(name.as_str(), value);
            Ok(value)
        } else {
            self.evaluate_additive()
        }
    }

    /// Evaluates the whole token stream: one statement, which must consume
    /// every token up to the end marker; the result is stored as the last
    /// result and returned.
    pub fn evaluate(&mut self) -> (r: Result<u32, Error>)
        requires
            old(self).wf(),
        ensures
            final(self).wf(),
            final(self).source() == old(self).source(),
            r matches Ok(v) ==> final(self).bindings().last == Some(v),
            r is Err ==> final(self).bindings().last == old(self).bindings().last,
            match spec_evaluate(old(self).source(), old(self).position(), old(self).bindings()) {
                StmtOut::Val { v, pos, env } => r == Ok::<u32, Error>(v)
                    && final(self).position() == pos && final(self).bindings() == env,
                StmtOut::Fail { e, env } => (r matches Err(err) && err@ == e)
                    && final(self).bindings() == env,
                StmtOut::Host => true,
            },
    {
        let result = match self.evaluate_statement() {
            Err(e) => {
                return Err(e);
            },
            Ok(v) => v,
        };
        match self.tokens.expect(&TokenValue::Eof) {
            Err(e) => {
                return Err(e);
            },
            Ok(_) => {},
        }
        let stored = self.env.set_last_result(result);
        Ok(stored)
    }

}

} // verus!
