//! The interface host-registered native functions implement.

use vstd::prelude::*;

use crate::error::Error;
use crate::parser::Parser;

verus! {

/// A native function the host registers in the environment.
///
/// When the evaluator reaches the function's name it invokes
/// [`Handler::call`], handing the live parse over as the argument source;
/// the handler pulls exactly as many operands as it needs through
/// [`Arguments::get_next_arg`](crate::arguments::Arguments::get_next_arg)
/// and returns its value, or an error of its own.
///
/// Implementations live in host code, outside this crate, so nothing is
/// assumed about the value they return.  The contract of `call` restates
/// what every sequence of `get_next_arg` calls preserves; implementations
/// are trusted to act on the argument source only through that interface,
/// which is all the pull model of argument passing asks of them.  The
/// parser's fields are sealed against host code, but its parsing methods
/// remain reachable from the `&mut` reference, so this stays a trust
/// obligation on the host rather than a theorem: a handler that drove the
/// parse through those methods could break the bindings clause behind the
/// verifier's back.
pub trait Handler: Sized + Clone {
    /// Computes the function's value, pulling its operands from `args`.
    ///
    /// The default rejects the call, for host types that only provide the
    /// power primitive.
    fn call(&self, args: &mut Parser<Self>) -> (r: Result<u32, Error>)
        requires
            old(args).wf(),
        ensures
            final(args).wf(),
            final(args).source() == old(args).source(),
            final(args).bindings() == old(args).bindings(),
            old(args).position() <= final(args).position(),
            final(args).position() <= final(args).source().len(),
    {
        proof {
            args.lemma_wf_bounds();
        }
        Err(Error::Runtime("Unsupported function!"))
    }

    /// The power primitive behind the exponent operators: the bits of
    /// `base` raised to the power `exponent`.  It needs the host's floating
    /// point unit, which this verified crate cannot touch, so the host
    /// provides it and registers it with
    /// [`Environment::assign_power_fn`](crate::environment::Environment::assign_power_fn).
    ///
    /// The default rejects the call, for host types that are only ever
    /// registered as named functions.
    fn pow(&self, base: u32, exponent: u32) -> (r: Result<u32, Error>) {
        Err(Error::Runtime("Unsupported function!"))
    }
}

} // verus!
