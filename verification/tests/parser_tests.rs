//! The parser/evaluator, driven directly with constructed token streams.

use calculator::arguments::Arguments;
use calculator::cursor::Cursor;
use calculator::environment::Environment;
use calculator::error::Error;
use calculator::handler::Handler;
use calculator::parser::Parser;
use calculator::token::{AddOperator, ExpOperator, MulOperator, Token, TokenValue};

/// Host-side native functions for the parser tests.
#[derive(Clone)]
enum HostFn {
    /// Halves its one operand.
    Test,
    /// The power primitive used by `**` and `//`.
    Pow,
}

impl Handler for HostFn {
    fn call(&self, args: &mut Parser<HostFn>) -> Result<u32, Error> {
        match self {
            HostFn::Test => {
                let a = f32::from_bits(args.get_next_arg()?);
                Ok((a / 2.0).to_bits())
            }
            HostFn::Pow => Err(Error::Runtime("Unsupported function!")),
        }
    }

    fn pow(&self, base: u32, exponent: u32) -> Result<u32, Error> {
        match self {
            HostFn::Pow => Ok(f32::from_bits(base).powf(f32::from_bits(exponent)).to_bits()),
            _ => Err(Error::Runtime("Unsupported function!")),
        }
    }
}

fn new_t(value: TokenValue) -> Token {
    Token::new(value, "".to_owned(), 0, 0)
}

fn num(x: f32) -> TokenValue {
    TokenValue::Number(x.to_bits())
}

fn new_env() -> Environment<HostFn> {
    let mut env: Environment<HostFn> = Environment::new();
    env.assign_power_fn(HostFn::Pow);
    env
}

fn new_p(env: Environment<HostFn>, tokens: Vec<Token>) -> Parser<HostFn> {
    Parser::new(Cursor::new(tokens), env)
}

fn val(r: Result<u32, Error>) -> f32 {
    f32::from_bits(r.unwrap())
}

#[test]
fn test_01_evaluate_atomic_simple() {
    assert_eq!(
        val(new_p(new_env(), vec![new_t(num(45.56)), new_t(TokenValue::Eof)]).evaluate_atomic()),
        45.56
    );

    assert_eq!(
        val(
            new_p(
                new_env(),
                vec![
                    new_t(TokenValue::AddOperator(AddOperator::Sub)),
                    new_t(num(45.56)),
                    new_t(TokenValue::Eof),
                ]
            )
            .evaluate_atomic()
        ),
        -45.56
    );

    assert_eq!(
        val(
            new_p(
                new_env(),
                vec![
                    new_t(TokenValue::AddOperator(AddOperator::Add)),
                    new_t(TokenValue::AddOperator(AddOperator::Sub)),
                    new_t(num(45.56)),
                    new_t(TokenValue::Eof),
                ]
            )
            .evaluate_atomic()
        ),
        -45.56
    );

    assert_eq!(
        val(
            new_p(
                new_env(),
                vec![
                    new_t(TokenValue::AddOperator(AddOperator::Sub)),
                    new_t(TokenValue::AddOperator(AddOperator::Sub)),
                    new_t(num(45.56)),
                    new_t(TokenValue::Eof),
                ]
            )
            .evaluate_atomic()
        ),
        45.56
    );
}

#[test]
fn test_02_evaluate_mul() {
    assert_eq!(
        val(
            new_p(
                new_env(),
                vec![
                    new_t(num(3.0)),
                    new_t(TokenValue::MulOperator(MulOperator::Mul)),
                    new_t(num(4.0)),
                    new_t(TokenValue::Eof),
                ]
            )
            .evaluate_multiplicative()
        ),
        12.0
    );

    assert_eq!(
        val(
            new_p(
                new_env(),
                vec![
                    new_t(num(12.0)),
                    new_t(TokenValue::MulOperator(MulOperator::Div)),
                    new_t(num(4.0)),
                    new_t(TokenValue::Eof),
                ]
            )
            .evaluate_multiplicative()
        ),
        3.0
    );

    assert_eq!(
        val(
            new_p(
                new_env(),
                vec![
                    new_t(num(12.0)),
                    new_t(TokenValue::MulOperator(MulOperator::Mod)),
                    new_t(num(7.0)),
                    new_t(TokenValue::Eof),
                ]
            )
            .evaluate_multiplicative()
        ),
        5.0
    );

    assert_eq!(
        val(
            new_p(
                new_env(),
                vec![
                    new_t(num(3.0)),
                    new_t(TokenValue::MulOperator(MulOperator::Mul)),
                    new_t(TokenValue::AddOperator(AddOperator::Sub)),
                    new_t(num(4.0)),
                    new_t(TokenValue::Eof),
                ]
            )
            .evaluate_multiplicative()
        ),
        -12.0
    );
}

#[test]
fn test_03_evaluate_add() {
    assert_eq!(
        val(
            new_p(
                new_env(),
                vec![
                    new_t(num(3.0)),
                    new_t(TokenValue::AddOperator(AddOperator::Add)),
                    new_t(num(4.0)),
                    new_t(TokenValue::Eof),
                ]
            )
            .evaluate_additive()
        ),
        7.0
    );

    assert_eq!(
        val(
            new_p(
                new_env(),
                vec![
                    new_t(num(3.0)),
                    new_t(TokenValue::AddOperator(AddOperator::Sub)),
                    new_t(num(4.0)),
                    new_t(TokenValue::Eof),
                ]
            )
            .evaluate_additive()
        ),
        -1.0
    );

    assert_eq!(
        val(
            new_p(
                new_env(),
                vec![
                    new_t(num(3.0)),
                    new_t(TokenValue::AddOperator(AddOperator::Sub)),
                    new_t(TokenValue::AddOperator(AddOperator::Sub)),
                    new_t(num(4.0)),
                    new_t(TokenValue::Eof),
                ]
            )
            .evaluate_additive()
        ),
        7.0
    );
}

#[test]
fn test_04_evaluate_operation_order() {
    assert_eq!(
        val(
            new_p(
                new_env(),
                vec![
                    new_t(num(3.0)),
                    new_t(TokenValue::AddOperator(AddOperator::Add)),
                    new_t(num(4.0)),
                    new_t(TokenValue::MulOperator(MulOperator::Mul)),
                    new_t(num(4.0)),
                    new_t(TokenValue::Eof),
                ]
            )
            .evaluate()
        ),
        19.0
    );

    assert_eq!(
        val(
            new_p(
                new_env(),
                vec![
                    new_t(num(3.0)),
                    new_t(TokenValue::MulOperator(MulOperator::Mul)),
                    new_t(num(4.0)),
                    new_t(TokenValue::AddOperator(AddOperator::Add)),
                    new_t(num(4.0)),
                    new_t(TokenValue::Eof),
                ]
            )
            .evaluate()
        ),
        16.0
    );

    assert_eq!(
        val(
            new_p(
                new_env(),
                vec![
                    new_t(num(3.0)),
                    new_t(TokenValue::MulOperator(MulOperator::Mul)),
                    new_t(TokenValue::AddOperator(AddOperator::Sub)),
                    new_t(num(4.0)),
                    new_t(TokenValue::AddOperator(AddOperator::Add)),
                    new_t(num(4.0)),
                    new_t(TokenValue::Eof),
                ]
            )
            .evaluate()
        ),
        -8.0
    );

    assert_eq!(
        val(
            new_p(
                new_env(),
                vec![
                    new_t(num(3.0)),
                    new_t(TokenValue::MulOperator(MulOperator::Mul)),
                    new_t(num(4.0)),
                    new_t(TokenValue::ExpOperator(ExpOperator::Power)),
                    new_t(num(2.0)),
                    new_t(TokenValue::Eof),
                ]
            )
            .evaluate()
        ),
        48.0
    );
}

#[test]
fn test_05_blank_input() {
    match new_p(new_env(), vec![new_t(TokenValue::Eof)]).evaluate() {
        Err(_) => (),
        _ => panic!(),
    }
}

#[test]
fn test_06_only_operator() {
    match new_p(
        new_env(),
        vec![new_t(TokenValue::AddOperator(AddOperator::Add)), new_t(TokenValue::Eof)],
    )
    .evaluate()
    {
        Err(_) => (),
        _ => panic!(),
    }
}

#[test]
fn test_07_only_numbers() {
    match new_p(new_env(), vec![new_t(num(4.0)), new_t(num(5.0)), new_t(TokenValue::Eof)])
        .evaluate()
    {
        Err(_) => (),
        _ => panic!(),
    }
}

#[test]
fn test_08_wrong_bracket() {
    match new_p(
        new_env(),
        vec![
            new_t(TokenValue::OpenBracket),
            new_t(num(5.0)),
            new_t(TokenValue::OpenBracket),
            new_t(TokenValue::Eof),
        ],
    )
    .evaluate()
    {
        Err(_) => (),
        _ => panic!(),
    }
}

#[test]
fn test_09_division_by_0() {
    match new_p(
        new_env(),
        vec![
            new_t(num(4.0)),
            new_t(TokenValue::MulOperator(MulOperator::Div)),
            new_t(num(0.0)),
            new_t(TokenValue::Eof),
        ],
    )
    .evaluate()
    {
        Err(_) => (),
        _ => panic!(),
    }
}

#[test]
fn test_10_variable_assigment_get() {
    let env = new_env();

    // assign
    let mut parser = new_p(
        env,
        vec![
            new_t(TokenValue::Let),
            new_t(TokenValue::Identifier("a".to_owned())),
            new_t(TokenValue::Equals),
            new_t(num(34.5)),
            new_t(TokenValue::Eof),
        ],
    );
    assert_eq!(val(parser.evaluate()), 34.5);

    // get
    let mut parser = new_p(
        parser.into_env(),
        vec![
            new_t(TokenValue::Identifier("a".to_owned())),
            new_t(TokenValue::AddOperator(AddOperator::Add)),
            new_t(num(2.0)),
            new_t(TokenValue::Eof),
        ],
    );
    assert_eq!(val(parser.evaluate()), 36.5);

    // reassign
    let mut parser = new_p(
        parser.into_env(),
        vec![
            new_t(TokenValue::Let),
            new_t(TokenValue::Identifier("a".to_owned())),
            new_t(TokenValue::Equals),
            new_t(num(5.4)),
            new_t(TokenValue::Eof),
        ],
    );
    assert_eq!(val(parser.evaluate()), 5.4);

    // get
    let mut parser = new_p(
        parser.into_env(),
        vec![
            new_t(TokenValue::Identifier("a".to_owned())),
            new_t(TokenValue::AddOperator(AddOperator::Add)),
            new_t(num(2.0)),
            new_t(TokenValue::Eof),
        ],
    );
    assert_eq!(val(parser.evaluate()), 7.4);
}

#[test]
fn test_11_get_undefined_variable() {
    match new_p(
        new_env(),
        vec![new_t(TokenValue::Identifier("xyz".to_owned())), new_t(TokenValue::Eof)],
    )
    .evaluate()
    {
        Err(_) => (),
        _ => panic!(),
    }
}

#[test]
fn test_12_function_call() {
    let mut env = new_env();
    env.assign_fn("test", HostFn::Test);
    let mut parser = new_p(
        env,
        vec![
            new_t(TokenValue::Identifier("test".to_owned())),
            new_t(num(4.0)),
            new_t(TokenValue::Eof),
        ],
    );
    assert_eq!(val(parser.evaluate()), 2.0);

    let mut parser = new_p(
        parser.into_env(),
        vec![
            new_t(TokenValue::Identifier("test".to_owned())),
            new_t(num(4.0)),
            new_t(TokenValue::AddOperator(AddOperator::Add)),
            new_t(num(4.0)),
            new_t(TokenValue::Eof),
        ],
    );
    assert_eq!(val(parser.evaluate()), 6.0);
}

#[test]
fn test_13_last_result() {
    // not assigned yet
    match new_p(new_env(), vec![new_t(TokenValue::LastResult), new_t(TokenValue::Eof)]).evaluate()
    {
        Err(_) => (),
        _ => panic!(),
    }

    // assign last result
    let mut parser = new_p(new_env(), vec![new_t(num(4.0)), new_t(TokenValue::Eof)]);
    assert_eq!(val(parser.evaluate()), 4.0);

    // use last result
    let mut parser = new_p(
        parser.into_env(),
        vec![new_t(TokenValue::LastResult), new_t(TokenValue::Eof)],
    );
    assert_eq!(val(parser.evaluate()), 4.0);
}

#[test]
fn test_14_evaluate_exp() {
    assert_eq!(
        val(
            new_p(
                new_env(),
                vec![
                    new_t(num(3.0)),
                    new_t(TokenValue::ExpOperator(ExpOperator::Power)),
                    new_t(num(2.0)),
                    new_t(TokenValue::Eof),
                ]
            )
            .evaluate_exponential()
        ),
        9.0
    );

    assert_eq!(
        val(
            new_p(
                new_env(),
                vec![
                    new_t(num(8.0)),
                    new_t(TokenValue::ExpOperator(ExpOperator::Root)),
                    new_t(num(3.0)),
                    new_t(TokenValue::Eof),
                ]
            )
            .evaluate_exponential()
        ),
        2.0
    );

    assert_eq!(
        val(
            new_p(
                new_env(),
                vec![
                    new_t(num(2.0)),
                    new_t(TokenValue::ExpOperator(ExpOperator::Power)),
                    new_t(TokenValue::AddOperator(AddOperator::Sub)),
                    new_t(num(1.0)),
                    new_t(TokenValue::Eof),
                ]
            )
            .evaluate_exponential()
        ),
        0.5
    );
}
