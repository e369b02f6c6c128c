//! The calculator's public API, exercised end to end.

use calculator::Calculator;
use calculator::arguments::Arguments;
use calculator::error::Error;
use calculator::handler::Handler;
use calculator::parser::Parser;

/// Host-side native functions for the tests: the evaluator itself never
/// touches a float, so the handlers decode the bit patterns, compute with
/// real floats and hand the bits back.
#[derive(Clone)]
enum HostFn {
    /// Halves its one operand.
    Test,
    /// Doubles its one operand.
    Double,
    /// The larger of two operands.
    Max,
    /// Divides two operands, failing on a zero divisor.
    Div,
    /// The power primitive used by `**` and `//`.
    Pow,
}

impl Handler for HostFn {
    fn call(&self, args: &mut Parser<HostFn>) -> Result<u32, Error> {
        match self {
            HostFn::Test => {
                let a = f32::from_bits(args.get_next_arg()?);
                Ok((a / 2.0).to_bits())
            }
            HostFn::Double => {
                let a = f32::from_bits(args.get_next_arg()?);
                Ok((a * 2.0).to_bits())
            }
            HostFn::Max => {
                let a = f32::from_bits(args.get_next_arg()?);
                let b = f32::from_bits(args.get_next_arg()?);
                Ok(a.max(b).to_bits())
            }
            HostFn::Div => {
                let a = f32::from_bits(args.get_next_arg()?);
                let b = f32::from_bits(args.get_next_arg()?);
                if b == 0.0 {
                    Err(Error::Fatal("Division by zero!"))
                } else {
                    Ok((a / b).to_bits())
                }
            }
            HostFn::Pow => Err(Error::Runtime("Unsupported function!")),
        }
    }

    fn pow(&self, base: u32, exponent: u32) -> Result<u32, Error> {
        match self {
            HostFn::Pow => Ok(f32::from_bits(base).powf(f32::from_bits(exponent)).to_bits()),
            _ => Err(Error::Runtime("Unsupported function!")),
        }
    }
}

fn new_calc() -> Calculator<HostFn> {
    let mut calc: Calculator<HostFn> = Calculator::new();
    calc.add_power_fn(HostFn::Pow);
    calc
}

fn val(r: Result<u32, Error>) -> f32 {
    f32::from_bits(r.unwrap())
}

#[test]
fn test_01_numerical_literal() {
    let mut calc = new_calc();

    assert_eq!(val(calc.calculate("0")), 0.0);
    assert_eq!(val(calc.calculate("4")), 4.0);

    assert_eq!(val(calc.calculate("0.0")), 0.0);
    assert_eq!(val(calc.calculate("4.5")), 4.5);
    assert_eq!(val(calc.calculate("455.555")), 455.555);
}

#[test]
fn test_02_sign() {
    let mut calc = new_calc();

    assert_eq!(val(calc.calculate("-0")), 0.0);
    assert_eq!(val(calc.calculate("-4")), -4.0);
    assert_eq!(val(calc.calculate("-0.0")), 0.0);
    assert_eq!(val(calc.calculate("-4.5")), -4.5);
    assert_eq!(val(calc.calculate("-455.555")), -455.555);

    assert_eq!(val(calc.calculate("+0")), 0.0);
    assert_eq!(val(calc.calculate("+4")), 4.0);
    assert_eq!(val(calc.calculate("+4.5")), 4.5);

    assert_eq!(val(calc.calculate("--4")), 4.0);
    assert_eq!(val(calc.calculate("+-4")), -4.0);
}

#[test]
fn test_03_additive() {
    let mut calc = new_calc();

    assert_eq!(val(calc.calculate("0 + 0")), 0.0);
    assert_eq!(val(calc.calculate("4 + 3")), 7.0);
    assert_eq!(val(calc.calculate("4.5 + 3")), 7.5);

    assert_eq!(val(calc.calculate("0 - 0")), 0.0);
    assert_eq!(val(calc.calculate("4 - 7")), -3.0);
    assert_eq!(val(calc.calculate("4.5 - 3")), 1.5);
}

#[test]
fn test_04_multiplicative() {
    let mut calc = new_calc();

    assert_eq!(val(calc.calculate("0 * 0")), 0.0);
    assert_eq!(val(calc.calculate("4 * 3")), 12.0);
    assert_eq!(val(calc.calculate("4.5 * 3")), 13.5);

    assert_eq!(val(calc.calculate("0 / 1")), 0.0);
    assert_eq!(val(calc.calculate("12 / 3")), 4.0);
    assert_eq!(val(calc.calculate("4.5 / 3")), 1.5);

    assert_eq!(val(calc.calculate("0 % 1")), 0.0);
    assert_eq!(val(calc.calculate("11 % 3")), 2.0);
    assert_eq!(val(calc.calculate("4.5 % 3")), 1.5);
}

#[test]
fn test_05_operation_order() {
    let mut calc = new_calc();

    assert_eq!(val(calc.calculate("3 + 4 * 5")), 23.0);
    assert_eq!(val(calc.calculate("3 * 4 + 5")), 17.0);

    assert_eq!(val(calc.calculate("3 + -4 * 5")), -17.0);
    assert_eq!(val(calc.calculate("3 + -4 * -5")), 23.0);
}

#[test]
fn test_06_brackets() {
    let mut calc = new_calc();

    assert_eq!(val(calc.calculate("(3 + 4) * 5")), 35.0);
    assert_eq!(val(calc.calculate("3 * (4 + 5)")), 27.0);

    assert_eq!(val(calc.calculate("3 + -(4 * 5)")), -17.0);
    assert_eq!(val(calc.calculate("3 + -(4 * -5)")), 23.0);
    assert_eq!(val(calc.calculate("(3 + -4) * 5")), -5.0);
    assert_eq!(val(calc.calculate("(3 + -4) * -5")), 5.0);
}

#[test]
fn test_07_variables() {
    let mut calc = new_calc();

    assert_eq!(val(calc.calculate("let a = 5")), 5.0);
    assert_eq!(val(calc.calculate("a * 10")), 50.0);
}

#[test]
fn test_08_function_calls() {
    let mut calc = new_calc();
    calc.init_std();
    calc.add_fn("test", HostFn::Test);

    assert_eq!(val(calc.calculate("test 16")), 8.0);
    assert_eq!(val(calc.calculate("test 16 * 5")), 40.0);
}

#[test]
fn test_09_last_result() {
    let mut calc = new_calc();

    match calc.calculate("$") {
        Err(Error::VariableNotFound { .. }) => (),
        _ => panic!(),
    }
    assert_eq!(val(calc.calculate("4 + 5")), 9.0);
    assert_eq!(val(calc.calculate("$ + 3")), 12.0);
}

#[test]
fn test_10_custom_function() {
    let mut calc = new_calc();
    calc.add_fn("double", HostFn::Double);
    calc.add_fn("max", HostFn::Max);

    assert_eq!(val(calc.calculate("double 4 + 2")), 10.0);
    assert_eq!(val(calc.calculate("max 10 4 + 2")), 12.0);
}

#[test]
fn test_11_predefined_variable() {
    let mut calc = new_calc();
    calc.add_var("foo", 40.0f32.to_bits());

    assert_eq!(val(calc.calculate("foo + 2")), 42.0);
}

#[test]
fn fallible_function_reports_its_own_error() {
    let mut calc = new_calc();
    calc.add_fn("div", HostFn::Div);

    assert_eq!(val(calc.calculate("div 8 2")), 4.0);
    let err = calc.calculate("div 2 0").unwrap_err();
    assert_eq!(err, Error::Fatal("Division by zero!"));
}

#[test]
fn let_keyword_assignment() {
    let mut calc = new_calc();

    assert_eq!(val(calc.calculate("let a = 5")), 5.0);
    assert_eq!(val(calc.calculate("a * 10")), 50.0);
    assert_eq!(val(calc.calculate("let a = 7")), 7.0);
    assert_eq!(val(calc.calculate("a * 10")), 70.0);
}

#[test]
fn standard_constants() {
    let mut calc = new_calc();
    calc.init_std();

    assert_eq!(val(calc.calculate("pi")), std::f32::consts::PI);
    assert_eq!(val(calc.calculate("e")), std::f32::consts::E);
}

#[test]
fn exponent_operators_use_the_power_function() {
    let mut calc = new_calc();

    assert_eq!(val(calc.calculate("2 ** 3")), 8.0);
    assert_eq!(val(calc.calculate("2 ** 10")), 1024.0);
    assert_eq!(val(calc.calculate("8 // 3")), 2.0);
}

#[test]
fn exponent_chain_evaluates_left_to_right() {
    let mut calc = new_calc();

    // Left to right: (2 ** 3) ** 2 == 64, not 2 ** (3 ** 2) == 512.
    assert_eq!(val(calc.calculate("2 ** 3 ** 2")), 64.0);
}

#[test]
fn exponent_without_power_function_is_a_runtime_error() {
    let mut calc: Calculator<HostFn> = Calculator::new();

    let err = calc.calculate("2 ** 3").unwrap_err();
    assert_eq!(err, Error::Runtime("No power function registered!"));
}
