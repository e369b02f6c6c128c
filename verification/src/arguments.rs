//! The pull-based interface a native function uses to consume its own
//! operands mid-parse.

use vstd::prelude::*;

use crate::environment::EnvModel;
use crate::error::Error;
use crate::parser::{ExprOut, spec_atomic};
use crate::token::TokenModel;

verus! {

/// Used for getting arguments for custom function implementations.
///
/// The evaluator implements this trait and hands itself to a registered
/// handler; the handler pulls as many operands as its own signature
/// requires, in order, left to right.  Each pull parses one atomic
/// expression from the ongoing parse, so pulling can never rewind the
/// token stream, change the tokens, or touch the environment.
pub trait Arguments {
    /// The token sequence the parse is reading.
    spec fn source(&self) -> Seq<TokenModel>;

    /// The read position in that sequence.
    spec fn position(&self) -> int;

    /// The environment the parse reads its bindings from.
    spec fn bindings(&self) -> EnvModel;

    /// The argument source is in a usable state: the read position is
    /// within the token sequence.
    spec fn wf(&self) -> bool;

    /// Parses and returns the next atomic expression as a value, or the
    /// error that parse produced, surfaced unchanged.  The outcome is
    /// exactly the atomic production's: one pull consumes one atomic, so a
    /// function's operands are taken left to right, tighter than any
    /// operator.
    fn get_next_arg(&mut self) -> (r: Result<u32, Error>)
        requires
            old(self).wf(),
        ensures
            final(self).wf(),
            final(self).source() == old(self).source(),
            final(self).bindings() == old(self).bindings(),
            old(self).position() <= final(self).position(),
            final(self).position() <= final(self).source().len(),
            match spec_atomic(old(self).source(), old(self).position(), old(self).bindings()) {
                ExprOut::Val { v, pos } => r == Ok::<u32, Error>(v) && final(self).position()
                    == pos,
                ExprOut::Fail { e, pos } => (r matches Err(err) && err@ == e)
                    && final(self).position() == pos,
                ExprOut::Host => true,
            },
    ;
}

} // verus!
