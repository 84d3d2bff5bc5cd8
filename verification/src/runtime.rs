//! The external collaborator that supplies native built-ins. The engine
//! delegates every `BuiltIn` call to it synchronously; nothing more is
//! assumed of an implementation, so the engine's guarantees hold for every
//! runtime.

use vstd::prelude::*;

use crate::bytecode::Literal;
use crate::bytecode::MFA;

verus! {

/// One operation: given a module/function/arity triple and evaluated
/// literal arguments, produce a literal result, or report a failure as a
/// term of the runtime's choosing. A reported failure is fatal to the
/// calling process only: the engine terminates that process and no other.
pub trait Runtime {
    fn execute(&mut self, mfa: &MFA, args: &Vec<Literal>) -> Result<Literal, Literal>;
}

} // verus!
