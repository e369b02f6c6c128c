//! Scenario checks for the evaluator's documented properties: round
//! trips, precedence, zero divisors, error spans, argument arity and the
//! exact error for each failure kind.

use calculator::Calculator;
use calculator::arguments::Arguments;
use calculator::error::Error;
use calculator::handler::Handler;
use calculator::parser::Parser;

/// Host-side native functions for the property tests.
#[derive(Clone)]
enum HostFn {
    /// Doubles its one operand.
    Double,
    /// The larger of two operands.
    Max,
    /// `a * b + c` over three operands.
    Fma,
    /// The power primitive used by `**` and `//`.
    Pow,
}

impl Handler for HostFn {
    fn call(&self, args: &mut Parser<HostFn>) -> Result<u32, Error> {
        match self {
            HostFn::Double => {
                let a = f32::from_bits(args.get_next_arg()?);
                Ok((a * 2.0).to_bits())
            }
            HostFn::Max => {
                let a = f32::from_bits(args.get_next_arg()?);
                let b = f32::from_bits(args.get_next_arg()?);
                Ok(a.max(b).to_bits())
            }
            HostFn::Fma => {
                let a = f32::from_bits(args.get_next_arg()?);
                let b = f32::from_bits(args.get_next_arg()?);
                let c = f32::from_bits(args.get_next_arg()?);
                Ok((a * b + c).to_bits())
            }
            HostFn::Pow => Err(Error::Runtime("Unsupported function!")),
        }
    }

    fn pow(&self, base: u32, exponent: u32) -> Result<u32, Error> {
        match self {
            HostFn::Pow => Ok(f32::from_bits(base).powf(f32::from_bits(exponent)).to_bits()),
            _ => Err(Error::Runtime("Unsupported function!")),
        }
    }
}

fn new_calc() -> Calculator<HostFn> {
    let mut calc: Calculator<HostFn> = Calculator::new();
    calc.add_power_fn(HostFn::Pow);
    calc
}

fn val(r: Result<u32, Error>) -> f32 {
    f32::from_bits(r.unwrap())
}

#[test]
fn numeric_literals_round_trip() {
    let mut calc = new_calc();

    assert_eq!(val(calc.calculate("0.1")), 0.1);
    assert_eq!(val(calc.calculate("2.5")), 2.5);
    assert_eq!(val(calc.calculate("1000000")), 1000000.0);
    // A literal with more digits than the mantissa holds rounds exactly as
    // Rust's own float parsing does.
    assert_eq!(val(calc.calculate("123456789")), 123456789.0f32);
    assert_eq!(val(calc.calculate("3.14159265358979")), 3.14159265358979f32);
}

#[test]
fn additive_chain_is_left_associative() {
    let mut calc = new_calc();

    assert_eq!(val(calc.calculate("100 - 30 - 20")), 50.0);
    assert_eq!(val(calc.calculate("2 - 3 + 4")), 3.0);
}

#[test]
fn arithmetic_matches_hardware_floats() {
    let mut calc = new_calc();

    assert_eq!(val(calc.calculate("0.1 + 0.2")), 0.1f32 + 0.2f32);
    assert_eq!(val(calc.calculate("1 - 0.25")), 0.75);
    assert_eq!(val(calc.calculate("1.5 * 2.5")), 3.75);
    assert_eq!(val(calc.calculate("1 / 3")), 1.0f32 / 3.0f32);
    assert_eq!(val(calc.calculate("5.5 % 2")), 1.5);
    assert_eq!(val(calc.calculate("-5.5 % 2")), -5.5f32 % 2.0f32);
}

#[test]
fn division_by_zero_is_a_runtime_error() {
    let mut calc = new_calc();

    assert_eq!(calc.calculate("4 / 0").unwrap_err(), Error::Runtime("Division by 0!"));
    assert_eq!(calc.calculate("4 % 0").unwrap_err(), Error::Runtime("Division by 0!"));
    assert_eq!(calc.calculate("8 // 0").unwrap_err(), Error::Runtime("Division by 0!"));
    assert_eq!(calc.calculate("4 / -0.0").unwrap_err(), Error::Runtime("Division by 0!"));
}

#[test]
fn zero_divisor_anywhere_in_a_chain() {
    let mut calc = new_calc();

    // A zero divisor stops the chain wherever it stands...
    assert_eq!(calc.calculate("4 * 0 / 0").unwrap_err(), Error::Runtime("Division by 0!"));
    assert_eq!(calc.calculate("4 / 0 * 0").unwrap_err(), Error::Runtime("Division by 0!"));
    assert_eq!(calc.calculate("1 / 2 % 0").unwrap_err(), Error::Runtime("Division by 0!"));
    // ...and a chain without one folds left to right.
    assert_eq!(val(calc.calculate("12 / 2 / 3")), 2.0);
    assert_eq!(val(calc.calculate("12 / 2 % 4")), 2.0);
}

#[test]
fn error_messages() {
    let mut calc = new_calc();

    assert_eq!(calc.calculate("4 / 0").unwrap_err().message(), "Division by 0!");
    assert_eq!(calc.calculate("boo").unwrap_err().message(), "Variable `boo` not found!");
    assert_eq!(calc.calculate("4 5").unwrap_err().message(), "Unexpected token `5` found!");
    assert_eq!(calc.calculate("?").unwrap_err().message(), "Invalid character `?` found!");
    assert_eq!(calc.calculate("").unwrap_err().message(), "Unexpected end of input!");
}

#[test]
fn unknown_identifier_spans_its_characters() {
    let mut calc = new_calc();

    assert_eq!(
        calc.calculate("4 + foobar").unwrap_err(),
        Error::VariableNotFound { var: "foobar".to_owned(), start: 4, end: 9 }
    );
    assert_eq!(
        calc.calculate("nope").unwrap_err(),
        Error::VariableNotFound { var: "nope".to_owned(), start: 0, end: 3 }
    );
}

#[test]
fn last_result_marker_before_any_success() {
    let mut calc = new_calc();

    assert_eq!(
        calc.calculate("$").unwrap_err(),
        Error::VariableNotFound { var: "$".to_owned(), start: 0, end: 0 }
    );
}

#[test]
fn two_argument_function_consumes_two_atomics() {
    let mut calc = new_calc();
    calc.add_fn("max", HostFn::Max);

    // max pulls exactly two atomics, so this is max(10, 4) + 2, not
    // max(10, 4 + 2).
    assert_eq!(val(calc.calculate("max 10 4 + 2")), 12.0);
}

#[test]
fn three_argument_function_consumes_three_atomics() {
    let mut calc = new_calc();
    calc.add_fn("fma", HostFn::Fma);

    assert_eq!(val(calc.calculate("fma 2 3 4")), 10.0);
    assert_eq!(val(calc.calculate("fma 2 3 4 + 1")), 11.0);
}

#[test]
fn nested_function_calls() {
    let mut calc = new_calc();
    calc.add_fn("double", HostFn::Double);

    assert_eq!(val(calc.calculate("double double 4")), 16.0);
    assert_eq!(val(calc.calculate("double (1 + 2)")), 6.0);
}

#[test]
fn function_with_too_few_operands() {
    let mut calc = new_calc();
    calc.add_fn("max", HostFn::Max);

    assert_eq!(calc.calculate("max 10").unwrap_err(), Error::UnexpectedEndOfInput);
}

#[test]
fn blank_input_is_an_error() {
    let mut calc = new_calc();

    assert_eq!(calc.calculate("").unwrap_err(), Error::UnexpectedEndOfInput);
    assert_eq!(calc.calculate("   ").unwrap_err(), Error::UnexpectedEndOfInput);
}

#[test]
fn lone_operator_is_an_error() {
    let mut calc = new_calc();

    assert_eq!(calc.calculate("+").unwrap_err(), Error::UnexpectedEndOfInput);
    assert_eq!(calc.calculate("-").unwrap_err(), Error::UnexpectedEndOfInput);
    // A lone multiplicative operator is not a sign, so it is reported as
    // the unexpected token itself.
    assert_eq!(
        calc.calculate("*").unwrap_err(),
        Error::UnexpectedToken { token: "*".to_owned(), start: 0, end: 0 }
    );
}

#[test]
fn leftover_tokens_are_unexpected() {
    let mut calc = new_calc();

    assert_eq!(
        calc.calculate("4 5").unwrap_err(),
        Error::UnexpectedToken { token: "5".to_owned(), start: 2, end: 2 }
    );
    assert_eq!(
        calc.calculate(") 4").unwrap_err(),
        Error::UnexpectedToken { token: ")".to_owned(), start: 0, end: 0 }
    );
}

#[test]
fn unclosed_bracket_is_end_of_input() {
    let mut calc = new_calc();

    assert_eq!(calc.calculate("(4").unwrap_err(), Error::UnexpectedEndOfInput);
}

#[test]
fn failed_evaluation_keeps_the_last_result() {
    let mut calc = new_calc();

    assert_eq!(val(calc.calculate("4 + 5")), 9.0);
    assert!(calc.calculate("4 / 0").is_err());
    assert!(calc.calculate("nope").is_err());
    // The remembered result is still the last successful one.
    assert_eq!(val(calc.calculate("$")), 9.0);
}

#[test]
fn failed_statement_keeps_nested_assignments() {
    let mut calc = new_calc();

    // The right-hand side evaluates and binds before the leftover token is
    // discovered, so the binding persists even though the line failed.
    assert!(calc.calculate("let a = 5 6").is_err());
    // The failed line did not become the last result.
    assert_eq!(
        calc.calculate("$").unwrap_err(),
        Error::VariableNotFound { var: "$".to_owned(), start: 0, end: 0 }
    );
    assert_eq!(val(calc.calculate("a")), 5.0);
}

#[test]
fn assignment_needs_the_keyword() {
    let mut calc = new_calc();

    // Without `let` there is no assignment form: the line is an additive
    // expression, so an unbound name fails its lookup...
    assert_eq!(
        calc.calculate("a = 5").unwrap_err(),
        Error::VariableNotFound { var: "a".to_owned(), start: 0, end: 0 }
    );
    // ...and a bound name evaluates, leaving `= 5` as leftover tokens.
    assert_eq!(val(calc.calculate("let a = 4")), 4.0);
    assert_eq!(
        calc.calculate("a = 5").unwrap_err(),
        Error::UnexpectedToken { token: "=".to_owned(), start: 2, end: 2 }
    );
    assert_eq!(val(calc.calculate("a")), 4.0);
}

#[test]
fn nested_assignment_binds_both_names() {
    let mut calc = new_calc();

    assert_eq!(val(calc.calculate("let a = let b = 3")), 3.0);
    assert_eq!(val(calc.calculate("a")), 3.0);
    assert_eq!(val(calc.calculate("b")), 3.0);
}

#[test]
fn function_name_shadowed_by_variable() {
    let mut calc = new_calc();
    calc.add_fn("double", HostFn::Double);

    assert_eq!(val(calc.calculate("double 4")), 8.0);
    assert_eq!(val(calc.calculate("let double = 3")), 3.0);
    assert_eq!(val(calc.calculate("double + 1")), 4.0);
}
