//! What a name in the environment can be bound to.

use vstd::prelude::*;

verus! {

/// A binding in the environment: a plain value, or a native function
/// registered by the host.  `H` is the host's handler type.
pub enum Variable<H> {
    /// A constant value, as an `f32` bit pattern.
    Var(u32),
    /// A host-registered native function; it pulls its own operands from
    /// the parse through the [`Arguments`](crate::arguments::Arguments)
    /// interface when invoked.
    Fn(H),
}

/// Spec-level view of a binding.  Handlers are host code that Verus has not
/// seen, so all of them collapse to [`VarModel::Custom`]: an evaluation that
/// reaches one has a host-dependent outcome.
pub enum VarModel {
    Const(u32),
    Custom,
}

impl<H> View for Variable<H> {
    type V = VarModel;

    open spec fn view(&self) -> VarModel {
        match self {
            Variable::Var(bits) => VarModel::Const(*bits),
            Variable::Fn(_) => VarModel::Custom,
        }
    }
}

} // verus!
