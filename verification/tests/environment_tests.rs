//! The environment: assignment, lookup and the standard bindings.

use calculator::arguments::Arguments;
use calculator::environment::Environment;
use calculator::error::Error;
use calculator::handler::Handler;
use calculator::parser::Parser;
use calculator::variable::Variable;

/// Host-side native function for the environment tests.
#[derive(Clone)]
enum HostFn {
    /// Halves its one operand.
    Test,
}

impl Handler for HostFn {
    fn call(&self, args: &mut Parser<HostFn>) -> Result<u32, Error> {
        let a = f32::from_bits(args.get_next_arg()?);
        Ok((a / 2.0).to_bits())
    }
}

#[test]
fn test_01_assignment() {
    let mut env: Environment<HostFn> = Environment::new();
    env.assign_var("var1", 34.5f32.to_bits());
    match env.get("var1") {
        Some(Variable::Var(val)) => assert_eq!(*val, 34.5f32.to_bits()),
        _ => panic!(),
    }
}

#[test]
fn test_02_get_undefined() {
    let env: Environment<HostFn> = Environment::new();
    if env.get("xyz").is_some() {
        panic!();
    }
}

#[test]
fn test_03_init() {
    let mut env: Environment<HostFn> = Environment::new();
    env.init_std();
    env.assign_fn("test", HostFn::Test);
    match env.get("pi") {
        Some(Variable::Var(val)) => assert_eq!(*val, std::f32::consts::PI.to_bits()),
        _ => panic!(),
    }
    match env.get("e") {
        Some(Variable::Var(val)) => assert_eq!(*val, std::f32::consts::E.to_bits()),
        _ => panic!(),
    }

    match env.get("test") {
        Some(Variable::Fn(_)) => (),
        _ => panic!(),
    }
}

#[test]
fn reassignment_replaces() {
    let mut env: Environment<HostFn> = Environment::new();
    env.assign_var("a", 1.0f32.to_bits());
    env.assign_fn("a", HostFn::Test);
    match env.get("a") {
        Some(Variable::Fn(_)) => (),
        _ => panic!(),
    }
    env.assign_var("a", 2.0f32.to_bits());
    match env.get("a") {
        Some(Variable::Var(val)) => assert_eq!(*val, 2.0f32.to_bits()),
        _ => panic!(),
    }
}

#[test]
fn last_result_cell() {
    let mut env: Environment<HostFn> = Environment::new();
    assert_eq!(env.get_last_result(), None);
    assert_eq!(env.set_last_result(9.0f32.to_bits()), 9.0f32.to_bits());
    assert_eq!(env.get_last_result(), Some(9.0f32.to_bits()));
}
