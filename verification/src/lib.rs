//! An embeddable arithmetic-expression evaluator.
//!
//! A line of text is tokenized, parsed and evaluated in one pass against a
//! mutable [`Environment`](environment::Environment) of named variables and
//! host-registered native functions.  Numeric values are IEEE 754 single
//! precision numbers, carried everywhere as their bit patterns (`u32`) so
//! that the whole engine can be specified and verified; the host converts
//! with `to_bits` / `from_bits` at the boundary, and supplies the few
//! primitives that need its floating point unit: the power operation
//! behind the exponent operators, and any native functions it registers.

use vstd::prelude::*;

pub mod arguments;
pub mod cursor;
pub mod environment;
pub mod error;
pub mod handler;
pub mod laws;
pub mod lexer;
pub mod number;
pub mod parser;
pub mod token;
pub mod variable;

use crate::cursor::Cursor;
use crate::environment::{EnvModel, Environment};
use crate::error::Error;
use crate::handler::Handler;
use crate::lexer::{spec_tokenize, tokenize};
use crate::number::{F32_E, F32_PI};
use crate::parser::{Parser, StmtOut, spec_evaluate};
use crate::variable::VarModel;

verus! {

/// One whole calculation: tokenize, evaluate one statement, demand the
/// input was fully consumed, and remember the result.
pub open spec fn spec_calculate(input: Seq<char>, env: EnvModel) -> StmtOut {
    match spec_tokenize(input) {
        Err(e) => StmtOut::Fail { e, env },
        Ok(toks) => spec_evaluate(toks, 0, env),
    }
}

/// Calculates the result of `input` against `env`, storing the result as
/// the environment's last result on success.
///
/// The contract pins the result, the final environment and the exact error
/// wherever the evaluation stays inside this crate; an evaluation that
/// reaches host code — a registered native function or the host's power
/// primitive — has the outcome [`StmtOut::Host`], and then only the
/// last-result update is promised.
pub fn calculate<H: Handler>(input: &str, env: &mut Environment<H>) -> (r: Result<u32, Error>)
    ensures
        r is Err ==> final(env)@.last == old(env)@.last,
        match spec_calculate(input@, old(env)@) {
            StmtOut::Val { v, pos, env: env2 } => r == Ok::<u32, Error>(v) && final(env)@ == env2,
            StmtOut::Fail { e, env: env2 } => (r matches Err(err) && err@ == e)
                && final(env)@ == env2,
            StmtOut::Host => r matches Ok(v) ==> final(env)@.last == Some(v),
        },
{
    let tokens = match tokenize(input) {
        Err(e) => {
            return Err(e);
        },
        Ok(tokens) => tokens,
    };
    let cursor = Cursor::new(tokens);
    let mut owned: Environment<H> = Environment::new();
    core::mem::swap(env, &mut owned);
    let mut parser = Parser::new(cursor, owned);
    let result = parser.evaluate();
    *env = parser.into_env();
    result
}

/// Representation of a calculator instance: an environment and the
/// evaluation entry point.
pub struct Calculator<H> {
    env: Environment<H>,
}

impl<H> View for Calculator<H> {
    type V = EnvModel;

    closed spec fn view(&self) -> EnvModel {
        self.env@
    }
}

impl<H> Calculator<H> {
    /// Creates a new empty calculator instance.
    pub fn new() -> (c: Calculator<H>)
        ensures
            c@ == (EnvModel { vars: Map::empty(), last: None, power: false }),
    {
        Calculator { env: Environment::new() }
    }

    /// Binds the standard constants `pi` and `e`.  The unary standard
    /// functions need the host's floating point unit, so the host registers
    /// them with [`Calculator::add_fn`].
    pub fn init_std(&mut self)
        ensures
            final(self)@ == (EnvModel {
                vars: old(self)@.vars.insert("pi"@, VarModel::Const(F32_PI)).insert(
                    "e"@,
                    VarModel::Const(F32_E),
                ),
                ..old(self)@
            }),
    {
        self.env.init_std();
    }

    /// Adds a predefined variable, overriding any existing variable or
    /// function of this name without a warning.
    pub fn add_var(&mut self, id: &str, val: u32)
        ensures
            final(self)@ == (EnvModel {
                vars: old(self)@.vars.insert(id@, VarModel::Const(val)),
                ..old(self)@
            }),
    {
        self.env.assign_var(id, val);
    }

    /// Adds a custom native function, overriding any existing variable or
    /// function of this name without a warning.
    pub fn add_fn(&mut self, id: &str, fun: H)
        ensures
            final(self)@ == (EnvModel {
                vars: old(self)@.vars.insert(id@, VarModel::Custom),
                ..old(self)@
            }),
    {
        self.env.assign_fn(id, fun);
    }

    /// Registers the host's power primitive, used by the exponent
    /// operators `**` and `//`.
    pub fn add_power_fn(&mut self, fun: H)
        ensures
            final(self)@ == (EnvModel { power: true, ..old(self)@ }),
    {
        self.env.assign_power_fn(fun);
    }
}

impl<H: Handler> Calculator<H> {
    /// Calculates the result of the given expression.
    pub fn calculate(&mut self, input: &str) -> (r: Result<u32, Error>)
        ensures
            r is Err ==> final(self)@.last == old(self)@.last,
            match spec_calculate(input@, old(self)@) {
                StmtOut::Val { v, pos, env: env2 } => r == Ok::<u32, Error>(v)
                    && final(self)@ == env2,
                StmtOut::Fail { e, env: env2 } => (r matches Err(err) && err@ == e)
                    && final(self)@ == env2,
                StmtOut::Host => r matches Ok(v) ==> final(self)@.last == Some(v),
            },
    {
        calculate(input, &mut self.env)
    }
}

impl<H> Default for Calculator<H> {
    fn default() -> (c: Self)
        ensures
            c@ == (EnvModel { vars: Map::empty(), last: None, power: false }),
    {
        Self::new()
    }
}

} // verus!
