//! An abstract machine for a register-based bytecode in the style of a BEAM
//! process virtual machine: many lightweight processes, each with private
//! registers, term heap, call stack and mailbox, communicating only by
//! asynchronous message passing.
//!
//! The crate covers the instruction set and the execution engine that
//! interprets it: the register/frame model, heap-resident term construction
//! and destruction, control flow and pattern-match tests, the calling
//! conventions (call vs. tail call), closure creation, and the process
//! lifecycle (spawn, sleep/receive, send, kill). Native built-ins are
//! supplied by the embedder through the [`runtime::Runtime`] trait.

pub mod bytecode;
pub mod control;
pub mod laws;
pub mod mailbox;
pub mod modules;
pub mod process;
pub mod registers;
pub mod runtime;
pub mod scheduler;
pub mod term;

pub use bytecode::Fault;
pub use bytecode::FnCall;
pub use bytecode::FnKind;
pub use bytecode::Instruction;
pub use bytecode::Lambda;
pub use bytecode::List;
pub use bytecode::Literal;
pub use bytecode::Register;
pub use bytecode::Signal;
pub use bytecode::Spawn;
pub use bytecode::Test;
pub use bytecode::Value;
