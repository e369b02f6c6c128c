//! General properties of the evaluator, stated over the spec-level
//! evaluation functions and proved once and for all.
//!
//! The lemmas quantify over arbitrary operand bits and environments, so
//! they hold of every input of the stated shape; token text and positions
//! are arbitrary wherever the evaluation does not read them.

use vstd::prelude::*;

use crate::environment::EnvModel;
use crate::error::ErrorModel;
use crate::number::{f32_add, f32_div, f32_mul, f32_rem, spec_is_zero, spec_neg};
use crate::parser::{
    ExpectOut, ExprOut, StmtOut, spec_add_rest, spec_additive, spec_atomic, spec_evaluate,
    spec_exp_rest, spec_exponential, spec_expect, spec_mul_rest, spec_multiplicative,
    spec_statement,
};
use crate::token::{AddOperator, ExpOperator, MulOperator, TokenModel, TokenValueModel};
use crate::variable::VarModel;

verus! {

/// A number token makes this position an atomic of that value.
pub proof fn law_atomic_number(t: Seq<TokenModel>, p: int, env: EnvModel)
    requires
        0 <= p < t.len(),
        t[p].value matches TokenValueModel::Number(bits),
    ensures
        spec_atomic(t, p, env) == (ExprOut::Val { v: t[p].value->Number_0, pos: p + 1 }),
{
}

/// Unary signs recurse: two minus signs in front of an atomic cancel, so
/// `--x` evaluates to exactly what `x` evaluates to.
pub proof fn law_double_negation(t: Seq<TokenModel>, p: int, env: EnvModel)
    requires
        0 <= p,
        p + 2 < t.len(),
        t[p].value == TokenValueModel::AddOperator(AddOperator::Sub),
        t[p + 1].value == TokenValueModel::AddOperator(AddOperator::Sub),
        t[p + 2].value matches TokenValueModel::Number(bits),
    ensures
        spec_atomic(t, p, env) == (ExprOut::Val { v: t[p + 2].value->Number_0, pos: p + 3 }),
{
    let bits = t[p + 2].value->Number_0;
    assert(spec_atomic(t, p + 2, env) == (ExprOut::Val { v: bits, pos: p + 3 }));
    assert(spec_atomic(t, p + 1, env) == (ExprOut::Val { v: spec_neg(bits), pos: p + 3 }));
    crate::number::lemma_neg_involutive(bits);
}

/// A plus sign in front of a minus sign keeps the negation: `+-x`
/// evaluates to the negation of what `x` evaluates to.
pub proof fn law_plus_minus(t: Seq<TokenModel>, p: int, env: EnvModel)
    requires
        0 <= p,
        p + 2 < t.len(),
        t[p].value == TokenValueModel::AddOperator(AddOperator::Add),
        t[p + 1].value == TokenValueModel::AddOperator(AddOperator::Sub),
        t[p + 2].value matches TokenValueModel::Number(bits),
    ensures
        spec_atomic(t, p, env) == (ExprOut::Val {
            v: spec_neg(t[p + 2].value->Number_0),
            pos: p + 3,
        }),
{
    let bits = t[p + 2].value->Number_0;
    assert(spec_atomic(t, p + 2, env) == (ExprOut::Val { v: bits, pos: p + 3 }));
    assert(spec_atomic(t, p + 1, env) == (ExprOut::Val { v: spec_neg(bits), pos: p + 3 }));
}

/// True of a token that cannot continue an operator chain.
pub open spec fn ends_operand(v: TokenValueModel) -> bool {
    !(v is AddOperator || v is MulOperator || v is ExpOperator)
}

/// Operator precedence: in `a + b * c` the multiplication binds tighter,
/// so the additive production evaluates `b * c` first and then adds or
/// subtracts it as one right operand.
pub proof fn law_mul_binds_tighter(
    t: Seq<TokenModel>,
    p: int,
    env: EnvModel,
    op1: AddOperator,
)
    requires
        0 <= p,
        p + 5 < t.len(),
        t[p].value matches TokenValueModel::Number(a),
        t[p + 1].value == TokenValueModel::AddOperator(op1),
        t[p + 2].value matches TokenValueModel::Number(b),
        t[p + 3].value == TokenValueModel::MulOperator(MulOperator::Mul),
        t[p + 4].value matches TokenValueModel::Number(c),
        ends_operand(t[p + 5].value),
    ensures
        spec_additive(t, p, env) == (ExprOut::Val {
            v: {
                let m = f32_mul(t[p + 2].value->Number_0, t[p + 4].value->Number_0);
                if op1 is Add {
                    f32_add(t[p].value->Number_0, m)
                } else {
                    crate::number::f32_sub(t[p].value->Number_0, m)
                }
            },
            pos: p + 5,
        }),
{
    let a = t[p].value->Number_0;
    let b = t[p + 2].value->Number_0;
    let c = t[p + 4].value->Number_0;
    assert(spec_atomic(t, p, env) == (ExprOut::Val { v: a, pos: p + 1 }));
    assert(spec_exp_rest(t, p + 1, env, a) == (ExprOut::Val { v: a, pos: p + 1 }));
    assert(spec_exponential(t, p, env) == (ExprOut::Val { v: a, pos: p + 1 }));
    assert(spec_mul_rest(t, p + 1, env, a) == (ExprOut::Val { v: a, pos: p + 1 }));
    assert(spec_multiplicative(t, p, env) == (ExprOut::Val { v: a, pos: p + 1 }));
    assert(spec_atomic(t, p + 2, env) == (ExprOut::Val { v: b, pos: p + 3 }));
    assert(spec_exp_rest(t, p + 3, env, b) == (ExprOut::Val { v: b, pos: p + 3 }));
    assert(spec_exponential(t, p + 2, env) == (ExprOut::Val { v: b, pos: p + 3 }));
    assert(spec_atomic(t, p + 4, env) == (ExprOut::Val { v: c, pos: p + 5 }));
    assert(spec_exp_rest(t, p + 5, env, c) == (ExprOut::Val { v: c, pos: p + 5 }));
    assert(spec_exponential(t, p + 4, env) == (ExprOut::Val { v: c, pos: p + 5 }));
    assert(spec_mul_rest(t, p + 5, env, f32_mul(b, c)) == (ExprOut::Val {
        v: f32_mul(b, c),
        pos: p + 5,
    }));
    assert(spec_mul_rest(t, p + 3, env, b) == (ExprOut::Val { v: f32_mul(b, c), pos: p + 5 }));
    assert(spec_multiplicative(t, p + 2, env) == (ExprOut::Val { v: f32_mul(b, c), pos: p + 5 }));
    let total = if op1 is Add {
        f32_add(a, f32_mul(b, c))
    } else {
        crate::number::f32_sub(a, f32_mul(b, c))
    };
    assert(spec_add_rest(t, p + 5, env, total) == (ExprOut::Val { v: total, pos: p + 5 }));
    assert(spec_add_rest(t, p + 1, env, a) == (ExprOut::Val { v: total, pos: p + 5 }));
}

/// Operator precedence the other way round: in `a * b + c` the
/// multiplication is the left operand of the addition.
pub proof fn law_add_after_mul(t: Seq<TokenModel>, p: int, env: EnvModel)
    requires
        0 <= p,
        p + 5 < t.len(),
        t[p].value matches TokenValueModel::Number(a),
        t[p + 1].value == TokenValueModel::MulOperator(MulOperator::Mul),
        t[p + 2].value matches TokenValueModel::Number(b),
        t[p + 3].value == TokenValueModel::AddOperator(AddOperator::Add),
        t[p + 4].value matches TokenValueModel::Number(c),
        ends_operand(t[p + 5].value),
    ensures
        spec_additive(t, p, env) == (ExprOut::Val {
            v: f32_add(f32_mul(t[p].value->Number_0, t[p + 2].value->Number_0), t[p
                + 4].value->Number_0),
            pos: p + 5,
        }),
{
    let a = t[p].value->Number_0;
    let b = t[p + 2].value->Number_0;
    let c = t[p + 4].value->Number_0;
    assert(spec_atomic(t, p, env) == (ExprOut::Val { v: a, pos: p + 1 }));
    assert(spec_exp_rest(t, p + 1, env, a) == (ExprOut::Val { v: a, pos: p + 1 }));
    assert(spec_exponential(t, p, env) == (ExprOut::Val { v: a, pos: p + 1 }));
    assert(spec_atomic(t, p + 2, env) == (ExprOut::Val { v: b, pos: p + 3 }));
    assert(spec_exp_rest(t, p + 3, env, b) == (ExprOut::Val { v: b, pos: p + 3 }));
    assert(spec_exponential(t, p + 2, env) == (ExprOut::Val { v: b, pos: p + 3 }));
    assert(spec_mul_rest(t, p + 3, env, f32_mul(a, b)) == (ExprOut::Val {
        v: f32_mul(a, b),
        pos: p + 3,
    }));
    assert(spec_mul_rest(t, p + 1, env, a) == (ExprOut::Val { v: f32_mul(a, b), pos: p + 3 }));
    assert(spec_multiplicative(t, p, env) == (ExprOut::Val { v: f32_mul(a, b), pos: p + 3 }));
    assert(spec_atomic(t, p + 4, env) == (ExprOut::Val { v: c, pos: p + 5 }));
    assert(spec_exp_rest(t, p + 5, env, c) == (ExprOut::Val { v: c, pos: p + 5 }));
    assert(spec_exponential(t, p + 4, env) == (ExprOut::Val { v: c, pos: p + 5 }));
    assert(spec_mul_rest(t, p + 5, env, c) == (ExprOut::Val { v: c, pos: p + 5 }));
    assert(spec_multiplicative(t, p + 4, env) == (ExprOut::Val { v: c, pos: p + 5 }));
    let total = f32_add(f32_mul(a, b), c);
    assert(spec_add_rest(t, p + 5, env, total) == (ExprOut::Val { v: total, pos: p + 5 }));
    assert(spec_add_rest(t, p + 3, env, f32_mul(a, b)) == (ExprOut::Val {
        v: total,
        pos: p + 5,
    }));
}

/// Bracketing overrides precedence: `(a + b) * c` multiplies the sum.
pub proof fn law_brackets(t: Seq<TokenModel>, p: int, env: EnvModel)
    requires
        0 <= p,
        p + 7 < t.len(),
        t[p].value == TokenValueModel::OpenBracket,
        t[p + 1].value matches TokenValueModel::Number(a),
        t[p + 2].value == TokenValueModel::AddOperator(AddOperator::Add),
        t[p + 3].value matches TokenValueModel::Number(b),
        t[p + 4].value == TokenValueModel::CloseBracket,
        t[p + 5].value == TokenValueModel::MulOperator(MulOperator::Mul),
        t[p + 6].value matches TokenValueModel::Number(c),
        ends_operand(t[p + 7].value),
    ensures
        spec_additive(t, p, env) == (ExprOut::Val {
            v: f32_mul(f32_add(t[p + 1].value->Number_0, t[p + 3].value->Number_0), t[p
                + 6].value->Number_0),
            pos: p + 7,
        }),
{
    let a = t[p + 1].value->Number_0;
    let b = t[p + 3].value->Number_0;
    let c = t[p + 6].value->Number_0;
    let sum = f32_add(a, b);
    assert(spec_atomic(t, p + 1, env) == (ExprOut::Val { v: a, pos: p + 2 }));
    assert(spec_exp_rest(t, p + 2, env, a) == (ExprOut::Val { v: a, pos: p + 2 }));
    assert(spec_exponential(t, p + 1, env) == (ExprOut::Val { v: a, pos: p + 2 }));
    assert(spec_mul_rest(t, p + 2, env, a) == (ExprOut::Val { v: a, pos: p + 2 }));
    assert(spec_multiplicative(t, p + 1, env) == (ExprOut::Val { v: a, pos: p + 2 }));
    assert(spec_atomic(t, p + 3, env) == (ExprOut::Val { v: b, pos: p + 4 }));
    assert(spec_exp_rest(t, p + 4, env, b) == (ExprOut::Val { v: b, pos: p + 4 }));
    assert(spec_exponential(t, p + 3, env) == (ExprOut::Val { v: b, pos: p + 4 }));
    assert(spec_mul_rest(t, p + 4, env, b) == (ExprOut::Val { v: b, pos: p + 4 }));
    assert(spec_multiplicative(t, p + 3, env) == (ExprOut::Val { v: b, pos: p + 4 }));
    assert(spec_add_rest(t, p + 4, env, sum) == (ExprOut::Val { v: sum, pos: p + 4 }));
    assert(spec_add_rest(t, p + 2, env, a) == (ExprOut::Val { v: sum, pos: p + 4 }));
    assert(spec_additive(t, p + 1, env) == (ExprOut::Val { v: sum, pos: p + 4 }));
    assert(spec_expect(t, p + 4, TokenValueModel::CloseBracket) == (ExpectOut::Hit {
        pos: p + 5,
    }));
    assert(spec_atomic(t, p, env) == (ExprOut::Val { v: sum, pos: p + 5 }));
    assert(spec_exp_rest(t, p + 5, env, sum) == (ExprOut::Val { v: sum, pos: p + 5 }));
    assert(spec_exponential(t, p, env) == (ExprOut::Val { v: sum, pos: p + 5 }));
    assert(spec_atomic(t, p + 6, env) == (ExprOut::Val { v: c, pos: p + 7 }));
    assert(spec_exp_rest(t, p + 7, env, c) == (ExprOut::Val { v: c, pos: p + 7 }));
    assert(spec_exponential(t, p + 6, env) == (ExprOut::Val { v: c, pos: p + 7 }));
    let total = f32_mul(sum, c);
    assert(spec_mul_rest(t, p + 7, env, total) == (ExprOut::Val { v: total, pos: p + 7 }));
    assert(spec_mul_rest(t, p + 5, env, sum) == (ExprOut::Val { v: total, pos: p + 7 }));
    assert(spec_multiplicative(t, p, env) == (ExprOut::Val { v: total, pos: p + 7 }));
    assert(spec_add_rest(t, p + 7, env, total) == (ExprOut::Val { v: total, pos: p + 7 }));
}

/// Division and modulo by a zero right operand always fail with the
/// runtime division error, never a value.
pub proof fn law_division_by_zero(
    t: Seq<TokenModel>,
    p: int,
    env: EnvModel,
    op: MulOperator,
)
    requires
        0 <= p,
        p + 3 < t.len(),
        t[p].value matches TokenValueModel::Number(a),
        t[p + 1].value == TokenValueModel::MulOperator(op),
        !(op is Mul),
        t[p + 2].value matches TokenValueModel::Number(z),
        spec_is_zero(t[p + 2].value->Number_0),
        ends_operand(t[p + 3].value),
    ensures
        spec_multiplicative(t, p, env) == (ExprOut::Fail {
            e: ErrorModel::Runtime { msg: "Division by 0!"@ },
            pos: p + 3,
        }),
{
    let a = t[p].value->Number_0;
    let z = t[p + 2].value->Number_0;
    assert(spec_atomic(t, p, env) == (ExprOut::Val { v: a, pos: p + 1 }));
    assert(spec_exp_rest(t, p + 1, env, a) == (ExprOut::Val { v: a, pos: p + 1 }));
    assert(spec_exponential(t, p, env) == (ExprOut::Val { v: a, pos: p + 1 }));
    assert(spec_atomic(t, p + 2, env) == (ExprOut::Val { v: z, pos: p + 3 }));
    assert(spec_exp_rest(t, p + 3, env, z) == (ExprOut::Val { v: z, pos: p + 3 }));
    assert(spec_exponential(t, p + 2, env) == (ExprOut::Val { v: z, pos: p + 3 }));
    assert(spec_mul_rest(t, p + 1, env, a) == (ExprOut::Fail {
        e: ErrorModel::Runtime { msg: "Division by 0!"@ },
        pos: p + 3,
    }));
}

/// The root operator with a zero right operand always fails with the same
/// runtime division error, whether or not a power primitive is registered.
pub proof fn law_root_by_zero(t: Seq<TokenModel>, p: int, env: EnvModel)
    requires
        0 <= p,
        p + 2 < t.len(),
        t[p].value matches TokenValueModel::Number(a),
        t[p + 1].value == TokenValueModel::ExpOperator(ExpOperator::Root),
        t[p + 2].value matches TokenValueModel::Number(z),
        spec_is_zero(t[p + 2].value->Number_0),
    ensures
        spec_exponential(t, p, env) == (ExprOut::Fail {
            e: ErrorModel::Runtime { msg: "Division by 0!"@ },
            pos: p + 3,
        }),
{
    let a = t[p].value->Number_0;
    let z = t[p + 2].value->Number_0;
    assert(spec_atomic(t, p, env) == (ExprOut::Val { v: a, pos: p + 1 }));
    assert(spec_atomic(t, p + 2, env) == (ExprOut::Val { v: z, pos: p + 3 }));
    assert(spec_exp_rest(t, p + 1, env, a) == (ExprOut::Fail {
        e: ErrorModel::Runtime { msg: "Division by 0!"@ },
        pos: p + 3,
    }));
}

/// An assignment evaluates its right-hand side, binds the name to the
/// result, stores the result as the last result, and yields it; every
/// other binding is untouched.  Re-binding replaces, because a map insert
/// does.
pub proof fn law_let_binds(t: Seq<TokenModel>, env: EnvModel)
    requires
        t.len() == 5,
        t[0].value == TokenValueModel::Let,
        t[1].value matches TokenValueModel::Identifier(name),
        t[2].value == TokenValueModel::Equals,
        t[3].value matches TokenValueModel::Number(bits),
        t[4].value == TokenValueModel::Eof,
    ensures
        spec_evaluate(t, 0, env) == (StmtOut::Val {
            v: t[3].value->Number_0,
            pos: 5,
            env: EnvModel {
                vars: env.vars.insert(
                    t[1].value->Identifier_0,
                    VarModel::Const(t[3].value->Number_0),
                ),
                last: Some(t[3].value->Number_0),
                power: env.power,
            },
        }),
{
    let name = t[1].value->Identifier_0;
    let bits = t[3].value->Number_0;
    assert(spec_atomic(t, 3, env) == (ExprOut::Val { v: bits, pos: 4 }));
    assert(spec_exp_rest(t, 4, env, bits) == (ExprOut::Val { v: bits, pos: 4 }));
    assert(spec_exponential(t, 3, env) == (ExprOut::Val { v: bits, pos: 4 }));
    assert(spec_mul_rest(t, 4, env, bits) == (ExprOut::Val { v: bits, pos: 4 }));
    assert(spec_multiplicative(t, 3, env) == (ExprOut::Val { v: bits, pos: 4 }));
    assert(spec_add_rest(t, 4, env, bits) == (ExprOut::Val { v: bits, pos: 4 }));
    assert(spec_additive(t, 3, env) == (ExprOut::Val { v: bits, pos: 4 }));
    assert(spec_statement(t, 3, env) == (StmtOut::Val { v: bits, pos: 4, env }));
    assert(spec_expect(t, 2, TokenValueModel::Equals) == (ExpectOut::Hit { pos: 3 }));
    assert(spec_statement(t, 0, env) == (StmtOut::Val {
        v: bits,
        pos: 4,
        env: EnvModel { vars: env.vars.insert(name, VarModel::Const(bits)), ..env },
    }));
    assert(spec_expect(t, 4, TokenValueModel::Eof) == (ExpectOut::Hit { pos: 5 }));
}

/// A name bound to a constant evaluates to that constant and consumes no
/// further tokens.
pub proof fn law_constant_lookup(t: Seq<TokenModel>, p: int, env: EnvModel)
    requires
        0 <= p < t.len(),
        t[p].value matches TokenValueModel::Identifier(name),
        env.vars.contains_key(t[p].value->Identifier_0),
        env.vars[t[p].value->Identifier_0] matches VarModel::Const(bits),
    ensures
        spec_atomic(t, p, env) == (ExprOut::Val {
            v: env.vars[t[p].value->Identifier_0]->Const_0,
            pos: p + 1,
        }),
{
}

/// An unknown identifier fails with `VariableNotFound` carrying the name
/// and exactly the identifier token's character span.
pub proof fn law_variable_not_found(t: Seq<TokenModel>, p: int, env: EnvModel)
    requires
        0 <= p < t.len(),
        t[p].value matches TokenValueModel::Identifier(name),
        !env.vars.contains_key(t[p].value->Identifier_0),
    ensures
        spec_atomic(t, p, env) == (ExprOut::Fail {
            e: ErrorModel::VariableNotFound {
                var: t[p].value->Identifier_0,
                start: t[p].start,
                end: t[p].end,
            },
            pos: p + 1,
        }),
{
}

/// Before any successful evaluation the last-result marker has nothing to
/// read and fails with `VariableNotFound`.
pub proof fn law_last_result_fresh(t: Seq<TokenModel>, p: int, env: EnvModel)
    requires
        0 <= p < t.len(),
        t[p].value == TokenValueModel::LastResult,
        env.last is None,
    ensures
        spec_atomic(t, p, env) == (ExprOut::Fail {
            e: ErrorModel::VariableNotFound { var: t[p].src, start: t[p].start, end: t[p].end },
            pos: p + 1,
        }),
{
}

/// Once a result is remembered, the last-result marker reads it.
pub proof fn law_last_result_reads(t: Seq<TokenModel>, p: int, env: EnvModel)
    requires
        0 <= p < t.len(),
        t[p].value == TokenValueModel::LastResult,
        env.last matches Some(bits),
    ensures
        spec_atomic(t, p, env) == (ExprOut::Val { v: env.last->0, pos: p + 1 }),
{
}

/// Blank input — nothing but the end marker — is an error, never a
/// default value.
pub proof fn law_blank_input(t: Seq<TokenModel>, env: EnvModel)
    requires
        t.len() == 1,
        t[0].value == TokenValueModel::Eof,
    ensures
        spec_evaluate(t, 0, env) == (StmtOut::Fail {
            e: ErrorModel::UnexpectedEndOfInput,
            env,
        }),
{
}

/// Input consisting solely of an additive operator is an error, never a
/// default value.
pub proof fn law_only_operator(t: Seq<TokenModel>, env: EnvModel)
    requires
        t.len() == 2,
        t[0].value matches TokenValueModel::AddOperator(op),
        t[1].value == TokenValueModel::Eof,
    ensures
        spec_evaluate(t, 0, env) == (StmtOut::Fail {
            e: ErrorModel::UnexpectedEndOfInput,
            env,
        }),
{
    assert(spec_atomic(t, 1, env) == (ExprOut::Fail {
        e: ErrorModel::UnexpectedEndOfInput,
        pos: 2,
    }));
    assert(spec_atomic(t, 0, env) == (ExprOut::Fail {
        e: ErrorModel::UnexpectedEndOfInput,
        pos: 2,
    }));
    assert(spec_exponential(t, 0, env) == (ExprOut::Fail {
        e: ErrorModel::UnexpectedEndOfInput,
        pos: 2,
    }));
    assert(spec_multiplicative(t, 0, env) == (ExprOut::Fail {
        e: ErrorModel::UnexpectedEndOfInput,
        pos: 2,
    }));
    assert(spec_additive(t, 0, env) == (ExprOut::Fail {
        e: ErrorModel::UnexpectedEndOfInput,
        pos: 2,
    }));
}

/// A whole line that is one number literal evaluates to the correctly
/// rounded parse of that literal, and the result is remembered: numeric
/// literals round-trip through the evaluator.
pub proof fn law_number_literal_round_trip(s: Seq<char>, env: EnvModel)
    requires
        s.len() > 0,
        crate::lexer::is_digit(s[0]),
        forall|k: int|
            0 <= k < s.len() ==> (crate::lexer::is_digit(#[trigger] s[k]) || s[k] == '.'),
        forall|k1: int, k2: int|
            0 <= k1 < k2 < s.len() && #[trigger] s[k1] == '.' ==> #[trigger] s[k2] != '.',
    ensures
        crate::spec_calculate(s, env) == (StmtOut::Val {
            v: crate::number::f32_parse(s),
            pos: 2,
            env: EnvModel { last: Some(crate::number::f32_parse(s)), ..env },
        }),
{
    crate::lexer::law_number_token(s);
    let bits = crate::number::f32_parse(s);
    let t = seq![
        crate::lexer::tok(TokenValueModel::Number(bits), s, 0, s.len() - 1),
        crate::lexer::eof_tok(s.len() as int),
    ];
    assert(spec_atomic(t, 0, env) == (ExprOut::Val { v: bits, pos: 1 }));
    assert(spec_exp_rest(t, 1, env, bits) == (ExprOut::Val { v: bits, pos: 1 }));
    assert(spec_exponential(t, 0, env) == (ExprOut::Val { v: bits, pos: 1 }));
    assert(spec_mul_rest(t, 1, env, bits) == (ExprOut::Val { v: bits, pos: 1 }));
    assert(spec_multiplicative(t, 0, env) == (ExprOut::Val { v: bits, pos: 1 }));
    assert(spec_add_rest(t, 1, env, bits) == (ExprOut::Val { v: bits, pos: 1 }));
    assert(spec_additive(t, 0, env) == (ExprOut::Val { v: bits, pos: 1 }));
    assert(spec_statement(t, 0, env) == (StmtOut::Val { v: bits, pos: 1, env }));
    assert(spec_expect(t, 1, TokenValueModel::Eof) == (ExpectOut::Hit { pos: 2 }));
}

/// A whole line that is one unknown identifier fails with
/// `VariableNotFound` carrying the identifier's text and a span covering
/// exactly its characters in the source, and the environment is untouched.
pub proof fn law_unknown_name_spans_source(s: Seq<char>, env: EnvModel)
    requires
        s.len() > 0,
        crate::lexer::is_word_start(s[0]),
        forall|k: int| 0 <= k < s.len() ==> crate::lexer::is_word_char(#[trigger] s[k]),
        s != "let"@,
        !env.vars.contains_key(s),
    ensures
        crate::spec_calculate(s, env) == (StmtOut::Fail {
            e: ErrorModel::VariableNotFound { var: s, start: 0, end: s.len() - 1 },
            env,
        }),
{
    crate::lexer::law_identifier_token(s);
    let t = seq![
        crate::lexer::tok(TokenValueModel::Identifier(s), s, 0, s.len() - 1),
        crate::lexer::eof_tok(s.len() as int),
    ];
    assert(spec_atomic(t, 0, env) == (ExprOut::Fail {
        e: ErrorModel::VariableNotFound { var: s, start: 0, end: s.len() - 1 },
        pos: 1,
    }));
    assert(spec_exponential(t, 0, env) == (ExprOut::Fail {
        e: ErrorModel::VariableNotFound { var: s, start: 0, end: s.len() - 1 },
        pos: 1,
    }));
    assert(spec_multiplicative(t, 0, env) == (ExprOut::Fail {
        e: ErrorModel::VariableNotFound { var: s, start: 0, end: s.len() - 1 },
        pos: 1,
    }));
    assert(spec_additive(t, 0, env) == (ExprOut::Fail {
        e: ErrorModel::VariableNotFound { var: s, start: 0, end: s.len() - 1 },
        pos: 1,
    }));
    assert(spec_statement(t, 0, env) == (StmtOut::Fail {
        e: ErrorModel::VariableNotFound { var: s, start: 0, end: s.len() - 1 },
        env,
    }));
}

/// The exponent operators are gated on the host's power primitive: with
/// none registered they fail with a runtime error, never a value.
pub proof fn law_exponent_needs_power(t: Seq<TokenModel>, p: int, env: EnvModel)
    requires
        0 <= p,
        p + 2 < t.len(),
        t[p].value matches TokenValueModel::Number(a),
        t[p + 1].value == TokenValueModel::ExpOperator(ExpOperator::Power),
        t[p + 2].value matches TokenValueModel::Number(b),
        !env.power,
    ensures
        spec_exponential(t, p, env) == (ExprOut::Fail {
            e: ErrorModel::Runtime { msg: "No power function registered!"@ },
            pos: p + 3,
        }),
{
    let a = t[p].value->Number_0;
    let b = t[p + 2].value->Number_0;
    assert(spec_atomic(t, p, env) == (ExprOut::Val { v: a, pos: p + 1 }));
    assert(spec_atomic(t, p + 2, env) == (ExprOut::Val { v: b, pos: p + 3 }));
    assert(spec_exp_rest(t, p + 1, env, a) == (ExprOut::Fail {
        e: ErrorModel::Runtime { msg: "No power function registered!"@ },
        pos: p + 3,
    }));
}

/// A binding made by one evaluation is visible to a later evaluation on
/// the same environment: a whole line naming a bound constant yields its
/// value and remembers it.
pub proof fn law_bound_name_reads_back(s: Seq<char>, env: EnvModel)
    requires
        s.len() > 0,
        crate::lexer::is_word_start(s[0]),
        forall|k: int| 0 <= k < s.len() ==> crate::lexer::is_word_char(#[trigger] s[k]),
        s != "let"@,
        env.vars.contains_key(s),
        env.vars[s] matches VarModel::Const(bits),
    ensures
        crate::spec_calculate(s, env) == (StmtOut::Val {
            v: env.vars[s]->Const_0,
            pos: 2,
            env: EnvModel { last: Some(env.vars[s]->Const_0), ..env },
        }),
{
    crate::lexer::law_identifier_token(s);
    let bits = env.vars[s]->Const_0;
    let t = seq![
        crate::lexer::tok(TokenValueModel::Identifier(s), s, 0, s.len() - 1),
        crate::lexer::eof_tok(s.len() as int),
    ];
    assert(spec_atomic(t, 0, env) == (ExprOut::Val { v: bits, pos: 1 }));
    assert(spec_exp_rest(t, 1, env, bits) == (ExprOut::Val { v: bits, pos: 1 }));
    assert(spec_exponential(t, 0, env) == (ExprOut::Val { v: bits, pos: 1 }));
    assert(spec_mul_rest(t, 1, env, bits) == (ExprOut::Val { v: bits, pos: 1 }));
    assert(spec_multiplicative(t, 0, env) == (ExprOut::Val { v: bits, pos: 1 }));
    assert(spec_add_rest(t, 1, env, bits) == (ExprOut::Val { v: bits, pos: 1 }));
    assert(spec_additive(t, 0, env) == (ExprOut::Val { v: bits, pos: 1 }));
    assert(spec_statement(t, 0, env) == (StmtOut::Val { v: bits, pos: 1, env }));
    assert(spec_expect(t, 1, TokenValueModel::Eof) == (ExpectOut::Hit { pos: 2 }));
}

/// The shape of a multiplicative chain rest: from `p` on, the tokens
/// spell `(op NUMBER)*` for the given steps and then a token that ends
/// the operand.
pub open spec fn is_mul_chain(t: Seq<TokenModel>, p: int, steps: Seq<(MulOperator, u32)>) -> bool
    decreases steps.len(),
{
    if steps.len() == 0 {
        p < t.len() && ends_operand(t[p].value)
    } else {
        &&& p + 1 < t.len()
        &&& t[p].value == TokenValueModel::MulOperator(steps[0].0)
        &&& t[p + 1].value == TokenValueModel::Number(steps[0].1)
        &&& is_mul_chain(t, p + 2, steps.skip(1))
    }
}

/// One multiplicative step over the accumulated left value.
pub open spec fn mul_step(op: MulOperator, acc: u32, right: u32) -> u32 {
    match op {
        MulOperator::Mul => f32_mul(acc, right),
        MulOperator::Div => f32_div(acc, right),
        MulOperator::Mod => f32_rem(acc, right),
    }
}

/// The left-to-right evaluation of a multiplicative chain: each step
/// folds in its right operand, and the first division or modulo step
/// whose right operand is zero stops the chain with the runtime division
/// error, positioned just past that operand.
pub open spec fn mul_chain_eval(
    p: int,
    acc: u32,
    steps: Seq<(MulOperator, u32)>,
) -> ExprOut
    decreases steps.len(),
{
    if steps.len() == 0 {
        ExprOut::Val { v: acc, pos: p }
    } else if !(steps[0].0 is Mul) && spec_is_zero(steps[0].1) {
        ExprOut::Fail { e: ErrorModel::Runtime { msg: "Division by 0!"@ }, pos: p + 2 }
    } else {
        mul_chain_eval(p + 2, mul_step(steps[0].0, acc, steps[0].1), steps.skip(1))
    }
}

/// Some step of the chain divides or takes the remainder by zero.
pub open spec fn has_zero_divisor(steps: Seq<(MulOperator, u32)>) -> bool {
    exists|i: int|
        0 <= i < steps.len() && !(#[trigger] steps[i].0 is Mul) && spec_is_zero(steps[i].1)
}

/// Over any multiplicative chain of number literals, the parse equals the
/// left-to-right fold [`mul_chain_eval`]: operands combine leftmost
/// first, and the leftmost zero-divisor step, if any, yields the runtime
/// division error at its own position.  [`law_mul_chain_general`] states
/// the same over arbitrary host-free operands.
pub proof fn law_mul_chain(
    t: Seq<TokenModel>,
    p: int,
    env: EnvModel,
    acc: u32,
    steps: Seq<(MulOperator, u32)>,
)
    requires
        0 <= p,
        is_mul_chain(t, p, steps),
    ensures
        spec_mul_rest(t, p, env, acc) == mul_chain_eval(p, acc, steps),
    decreases steps.len(),
{
    if steps.len() == 0 {
    } else {
        let op = steps[0].0;
        let right = steps[0].1;
        assert(spec_atomic(t, p + 1, env) == (ExprOut::Val { v: right, pos: p + 2 }));
        if steps.len() == 1 {
            assert(is_mul_chain(t, p + 2, steps.skip(1)));
            assert(p + 2 < t.len() && ends_operand(t[p + 2].value));
        } else {
            assert(is_mul_chain(t, p + 2, steps.skip(1)));
            assert(steps.skip(1)[0] == steps[1]);
            assert(t[p + 2].value == TokenValueModel::MulOperator(steps[1].0));
        }
        assert(spec_exp_rest(t, p + 2, env, right) == (ExprOut::Val { v: right, pos: p + 2 }));
        assert(spec_exponential(t, p + 1, env) == (ExprOut::Val { v: right, pos: p + 2 }));
        if !(op is Mul) && spec_is_zero(right) {
        } else {
            law_mul_chain(t, p + 2, env, mul_step(op, acc, right), steps.skip(1));
        }
    }
}

/// Division or modulo by a zero right operand anywhere in a chain always
/// yields the runtime division error, and never otherwise: over any
/// multiplicative chain of number literals, the parse fails with
/// `Runtime` exactly when some step divides or takes the remainder by
/// zero.
pub proof fn law_zero_divisor_iff(
    t: Seq<TokenModel>,
    p: int,
    env: EnvModel,
    acc: u32,
    steps: Seq<(MulOperator, u32)>,
)
    requires
        0 <= p,
        is_mul_chain(t, p, steps),
    ensures
        has_zero_divisor(steps) <==> spec_mul_rest(t, p, env, acc) matches ExprOut::Fail {
            e: ErrorModel::Runtime { msg },
            pos,
        },
    decreases steps.len(),
{
    law_mul_chain(t, p, env, acc, steps);
    lemma_chain_eval_fails_iff(p, acc, steps);
}

/// The chain fold fails exactly when a zero-divisor step exists.
proof fn lemma_chain_eval_fails_iff(p: int, acc: u32, steps: Seq<(MulOperator, u32)>)
    ensures
        has_zero_divisor(steps) <==> mul_chain_eval(p, acc, steps) matches ExprOut::Fail {
            e: ErrorModel::Runtime { msg },
            pos,
        },
    decreases steps.len(),
{
    if steps.len() == 0 {
        assert(!has_zero_divisor(steps));
    } else if !(steps[0].0 is Mul) && spec_is_zero(steps[0].1) {
        assert(has_zero_divisor(steps));
    } else {
        lemma_chain_eval_fails_iff(p + 2, mul_step(steps[0].0, acc, steps[0].1), steps.skip(1));
        if has_zero_divisor(steps.skip(1)) {
            let i = choose|i: int|
                0 <= i < steps.skip(1).len() && !(#[trigger] steps.skip(1)[i].0 is Mul)
                    && spec_is_zero(steps.skip(1)[i].1);
            assert(steps.skip(1)[i] == steps[i + 1]);
            assert(has_zero_divisor(steps));
        }
        if has_zero_divisor(steps) {
            let i = choose|i: int|
                0 <= i < steps.len() && !(#[trigger] steps[i].0 is Mul) && spec_is_zero(
                    steps[i].1,
                );
            assert(i >= 1);
            assert(steps.skip(1)[i - 1] == steps[i]);
            assert(has_zero_divisor(steps.skip(1)));
        }
    }
}

/// The same statement lifted to the multiplicative production: a number
/// literal followed by any multiplicative chain evaluates to the
/// left-to-right fold, failing exactly on the leftmost zero divisor.
pub proof fn law_multiplicative_chain(
    t: Seq<TokenModel>,
    p: int,
    env: EnvModel,
    steps: Seq<(MulOperator, u32)>,
)
    requires
        0 <= p < t.len(),
        t[p].value matches TokenValueModel::Number(v0),
        is_mul_chain(t, p + 1, steps),
    ensures
        spec_multiplicative(t, p, env) == mul_chain_eval(p + 1, t[p].value->Number_0, steps),
{
    let v0 = t[p].value->Number_0;
    assert(spec_atomic(t, p, env) == (ExprOut::Val { v: v0, pos: p + 1 }));
    if steps.len() == 0 {
        assert(p + 1 < t.len() && ends_operand(t[p + 1].value));
    } else {
        assert(t[p + 1].value == TokenValueModel::MulOperator(steps[0].0));
    }
    assert(spec_exp_rest(t, p + 1, env, v0) == (ExprOut::Val { v: v0, pos: p + 1 }));
    assert(spec_exponential(t, p, env) == (ExprOut::Val { v: v0, pos: p + 1 }));
    law_mul_chain(t, p + 1, env, v0, steps);
}

/// A multiplicative chain over arbitrary host-free operands: from `p` on,
/// the tokens spell `(op operand)*` where each operand is anything the
/// exponential production evaluates to the given value, ending at the
/// given position, and then a token that ends the chain.
pub open spec fn is_mul_chain_vals(
    t: Seq<TokenModel>,
    p: int,
    env: EnvModel,
    steps: Seq<(MulOperator, u32, int)>,
) -> bool
    decreases steps.len(),
{
    if steps.len() == 0 {
        p < t.len() && ends_operand(t[p].value)
    } else {
        &&& p < t.len()
        &&& t[p].value == TokenValueModel::MulOperator(steps[0].0)
        &&& spec_exponential(t, p + 1, env) == (ExprOut::Val { v: steps[0].1, pos: steps[0].2 })
        &&& p + 1 < steps[0].2
        &&& is_mul_chain_vals(t, steps[0].2, env, steps.skip(1))
    }
}

/// The left-to-right fold over such a chain, stopping at the leftmost
/// zero-divisor step with the runtime division error at that operand's
/// end.
pub open spec fn mul_chain_vals_eval(
    p: int,
    acc: u32,
    steps: Seq<(MulOperator, u32, int)>,
) -> ExprOut
    decreases steps.len(),
{
    if steps.len() == 0 {
        ExprOut::Val { v: acc, pos: p }
    } else if !(steps[0].0 is Mul) && spec_is_zero(steps[0].1) {
        ExprOut::Fail { e: ErrorModel::Runtime { msg: "Division by 0!"@ }, pos: steps[0].2 }
    } else {
        mul_chain_vals_eval(steps[0].2, mul_step(steps[0].0, acc, steps[0].1), steps.skip(1))
    }
}

/// Some step of the chain divides or takes the remainder by zero.
pub open spec fn has_zero_divisor_vals(steps: Seq<(MulOperator, u32, int)>) -> bool {
    exists|i: int|
        0 <= i < steps.len() && !(#[trigger] steps[i].0 is Mul) && spec_is_zero(steps[i].1)
}

/// Over a multiplicative chain of arbitrary host-free operands —
/// brackets, signs, variables, literals alike — the parse equals the
/// left-to-right fold: operands combine leftmost first, and the leftmost
/// `/` or `%` step with a zero right operand stops the chain with the
/// runtime division error.
pub proof fn law_mul_chain_general(
    t: Seq<TokenModel>,
    p: int,
    env: EnvModel,
    acc: u32,
    steps: Seq<(MulOperator, u32, int)>,
)
    requires
        0 <= p,
        is_mul_chain_vals(t, p, env, steps),
    ensures
        spec_mul_rest(t, p, env, acc) == mul_chain_vals_eval(p, acc, steps),
    decreases steps.len(),
{
    if steps.len() > 0 {
        let op = steps[0].0;
        let v = steps[0].1;
        let end = steps[0].2;
        if !(op is Mul) && spec_is_zero(v) {
        } else {
            law_mul_chain_general(t, end, env, mul_step(op, acc, v), steps.skip(1));
        }
    }
}

/// The iff over such chains: the parse fails with the runtime division
/// error exactly when some `/` or `%` step has a zero right operand.
pub proof fn law_zero_divisor_iff_general(
    t: Seq<TokenModel>,
    p: int,
    env: EnvModel,
    acc: u32,
    steps: Seq<(MulOperator, u32, int)>,
)
    requires
        0 <= p,
        is_mul_chain_vals(t, p, env, steps),
    ensures
        has_zero_divisor_vals(steps) <==> spec_mul_rest(t, p, env, acc) matches ExprOut::Fail {
            e: ErrorModel::Runtime { msg },
            pos,
        },
{
    law_mul_chain_general(t, p, env, acc, steps);
    lemma_chain_vals_eval_fails_iff(p, acc, steps);
}

/// The fold over value-steps fails exactly when a zero-divisor step
/// exists.
proof fn lemma_chain_vals_eval_fails_iff(p: int, acc: u32, steps: Seq<(MulOperator, u32, int)>)
    ensures
        has_zero_divisor_vals(steps) <==> mul_chain_vals_eval(p, acc, steps) matches ExprOut::Fail {
            e: ErrorModel::Runtime { msg },
            pos,
        },
    decreases steps.len(),
{
    if steps.len() == 0 {
        assert(!has_zero_divisor_vals(steps));
    } else if !(steps[0].0 is Mul) && spec_is_zero(steps[0].1) {
        assert(has_zero_divisor_vals(steps));
    } else {
        lemma_chain_vals_eval_fails_iff(
            steps[0].2,
            mul_step(steps[0].0, acc, steps[0].1),
            steps.skip(1),
        );
        if has_zero_divisor_vals(steps.skip(1)) {
            let i = choose|i: int|
                0 <= i < steps.skip(1).len() && !(#[trigger] steps.skip(1)[i].0 is Mul)
                    && spec_is_zero(steps.skip(1)[i].1);
            assert(steps.skip(1)[i] == steps[i + 1]);
            assert(has_zero_divisor_vals(steps));
        }
        if has_zero_divisor_vals(steps) {
            let i = choose|i: int|
                0 <= i < steps.len() && !(#[trigger] steps[i].0 is Mul) && spec_is_zero(
                    steps[i].1,
                );
            assert(i >= 1);
            assert(steps.skip(1)[i - 1] == steps[i]);
            assert(has_zero_divisor_vals(steps.skip(1)));
        }
    }
}

} // verus!
