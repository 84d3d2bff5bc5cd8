//! The bytecode data model: the tagged term universe (`Literal`, `Value`,
//! `Register`) and the closed instruction set that the execution engine
//! interprets. A loaded module is immutable: the engine never mutates code.

use vstd::prelude::*;

verus! {

/// An interned, immutable name: module names, function names, tags.
/// Two atoms are the same atom exactly when their characters are equal.
pub type Atom = String;

/// The declared argument count of a callable.
pub type Arity = u32;

/// An opaque identifier naming a code location within a module; resolved to
/// an absolute instruction offset at module-load time.
pub type Label = u32;

/// A named storage slot of a process's register file.
#[derive(Clone, Copy, Debug, PartialEq, Eq, Structural, Hash)]
pub enum Register {
    /// Global registers are shared by all activations within a process. They
    /// carry arguments into a call and the return value out of it: the result
    /// of a call is found in `Global(0)` by convention.
    Global(u32),
    /// Local registers are private to the current activation's local window
    /// and become invalid when that window is deallocated.
    Local(u32),
}

/// An operand: either an indirection through a register, read at use time,
/// an immediate term, or `Nil`, the absence of a value. Registers hold `Nil`
/// until they are first written, and again after `Clear`.
#[derive(Debug, PartialEq)]
pub enum Value {
    Register(Register),
    Literal(Literal),
    Nil,
}

/// A list term: the empty list, or a cons cell of head and tail.
#[derive(Debug, PartialEq)]
pub enum List {
    Nil,
    Cons(Box<Value>, Box<Value>),
}

/// A boxed closure: an entry point in a module together with a snapshot of
/// the creating process's first global registers, restored on application.
#[derive(Debug, PartialEq)]
pub struct Lambda {
    pub module: Atom,
    pub first_label: Label,
    pub arity: Arity,
    pub environment: Vec<Value>,
}

/// The term universe: every value a register or a message can hold.
///
/// Integers are held as plain machine integers — a deliberate narrowing of
/// the arbitrary-precision integer term: the engine itself only moves,
/// compares and matches integer terms, never computes on them, and a
/// runtime whose arithmetic would leave this range must report a failure
/// rather than wrap. Floating-point terms are carried opaquely as their raw
/// bit pattern for the same reason.
#[derive(Debug, PartialEq)]
pub enum Literal {
    Atom(Atom),
    Integer(i128),
    /// A floating-point term, carried opaquely as its bit pattern.
    Float(u64),
    Binary(Vec<u8>),
    List(List),
    Tuple(Vec<Value>),
    /// A map from literal keys to values. Entry order is the order of
    /// construction; keys are unique under term equality.
    Mapping(Vec<(Literal, Value)>),
    /// A process identifier: opaque, comparable, unique for the lifetime of
    /// the hosting engine instance.
    Pid(u64),
    Lambda(Lambda),
}

/// A module/function/arity triple naming a callable, as handed to the
/// external runtime for built-in calls.
#[derive(Clone, Debug, PartialEq)]
pub struct MFA {
    pub module: Atom,
    pub function: Atom,
    pub arity: Arity,
}

/// A call-site descriptor: which callable a `Call`/`TailCall` targets and
/// how it is resolved.
#[derive(Clone, Debug, PartialEq)]
pub enum FnCall {
    /// A native built-in, delegated synchronously to the runtime; the result
    /// is written to `destination` and no frame is pushed.
    BuiltIn {
        module: Atom,
        function: Atom,
        arity: Arity,
        arguments: Vec<Value>,
        destination: Register,
    },
    /// An intra-module call by label.
    Local { module: Atom, label: Label, arity: Arity },
    /// A cross-module call resolved by exported name; fails (fatal to the
    /// process) if the target module/function/arity is not registered.
    Qualified { module: Atom, function: Atom, arity: Arity },
    /// The callee is a boxed lambda read from `register`; its captured
    /// environment is restored as part of entry.
    ApplyLambda { arity: Arity, register: Register },
}

impl FnCall {
    /// The declared arity of the call site. Lambda applications carry their
    /// arity on the boxed closure instead, so asking this of one is a
    /// contract violation, not a silent default.
    pub fn arity(&self) -> (a: Arity)
        requires
            !(self is ApplyLambda),
        ensures
            a == self.spec_arity(),
    {
        match self {
            FnCall::Local { arity, .. } => *arity,
            FnCall::Qualified { arity, .. } => *arity,
            FnCall::BuiltIn { arity, .. } => *arity,
            FnCall::ApplyLambda { .. } => unreached(),
        }
    }

    pub open spec fn spec_arity(self) -> Arity
        recommends
            !(self is ApplyLambda),
    {
        match self {
            FnCall::Local { arity, .. } => arity,
            FnCall::Qualified { arity, .. } => arity,
            FnCall::BuiltIn { arity, .. } => arity,
            FnCall::ApplyLambda { arity, .. } => arity,
        }
    }

    /// The module the call site names. A lambda application names no module
    /// of its own: the boxed closure carries it.
    pub fn module(&self) -> (m: Option<String>)
        requires
            !(self is ApplyLambda),
        ensures
            m is Some,
            m->Some_0@ == self.spec_module()@,
    {
        match self {
            FnCall::Local { module, .. } => Some(module.clone()),
            FnCall::Qualified { module, .. } => Some(module.clone()),
            FnCall::BuiltIn { module, .. } => Some(module.clone()),
            FnCall::ApplyLambda { .. } => unreached(),
        }
    }

    pub open spec fn spec_module(self) -> Atom
        recommends
            !(self is ApplyLambda),
    {
        match self {
            FnCall::Local { module, .. } => module,
            FnCall::Qualified { module, .. } => module,
            FnCall::BuiltIn { module, .. } => module,
            FnCall::ApplyLambda { .. } => arbitrary(),
        }
    }

    /// The function name the call site names. Only qualified and built-in
    /// calls carry one: local calls go by label, lambda applications by the
    /// boxed closure.
    pub fn function(&self) -> (f: String)
        requires
            self is Qualified || self is BuiltIn,
        ensures
            f@ == self.spec_function()@,
    {
        match self {
            FnCall::Qualified { function, .. } => function.clone(),
            FnCall::BuiltIn { function, .. } => function.clone(),
            FnCall::Local { .. } => unreached(),
            FnCall::ApplyLambda { .. } => unreached(),
        }
    }

    pub open spec fn spec_function(self) -> Atom
        recommends
            self is Qualified || self is BuiltIn,
    {
        match self {
            FnCall::Qualified { function, .. } => function,
            FnCall::BuiltIn { function, .. } => function,
            _ => arbitrary(),
        }
    }
}

/// Whether a `Call`/`TailCall` target is an already-compiled host path or
/// user bytecode; informs dispatch, not the logical calling convention.
#[derive(Clone, Copy, Debug, PartialEq, Eq, Structural)]
pub enum FnKind {
    Native,
    User,
}

/// A side-effect-free boolean predicate over operands, evaluated by the
/// `Test` instruction: on false the instruction jumps, on true it falls
/// through.
#[derive(Clone, Debug, PartialEq)]
pub enum Test {
    Equals(Value, Value),
    NotEquals(Value, Value),
    IsFunctionWithArity { fun: Register, arity: Arity },
    IsGreaterOrEqualThan(Value, Value),
    IsNil(Value),
    IsNonEmptyList(Value),
    IsTaggedTuple { value: Value, size: u32, atom: Atom },
    IsTuple { register: Register, size: Option<u32> },
    IsMap { register: Register },
}

/// How a spawned process begins: by applying a boxed lambda with its captured
/// environment, or at a qualified call with explicit arguments.
#[derive(Clone, Debug, PartialEq)]
pub enum Spawn {
    Lambda { register: Register },
    MFA { module: Atom, function: Atom, arity: Arity, arguments: Vec<Value> },
}

/// The closed instruction set.
#[derive(Clone, Debug, PartialEq)]
pub enum Instruction {
    /// Stop the owning process deterministically (distinct from a fault).
    Halt,
    /// Move a value (a register's content or an immediate) to a register.
    Move(Value, Register),
    /// Swap the contents of two registers.
    Swap(Register, Register),
    /// Reset a register to `Nil`.
    Clear(Register),
    /// Push a fresh local window of `words` slots. The first
    /// `keep_registers` globals are preserved; the remaining globals are
    /// unspecified until written, and this engine resets them to `Nil`.
    Allocate { words: u8, keep_registers: u8 },
    /// Pop the most recent local window of `words` slots; its locals are no
    /// longer valid to read.
    Deallocate { words: u8 },
    /// Shift the current local window left by `amount`, discarding the
    /// `amount` lowest locals; used to compact a frame before a tail call.
    ShiftLocals { amount: u8 },
    /// Drop the current local window, restoring the previous one, without
    /// changing global registers.
    RestoreLocals,
    /// A no-op marker naming this code location; consumed at load time.
    Label(Label),
    /// Unconditional transfer to a label.
    Jump(Label),
    /// Pop the current continuation and transfer to it, leaving the result
    /// in `Global(0)` by convention. With no continuation pending the
    /// process completes normally.
    Return,
    /// Evaluate the predicate; on false jump to the label, on true fall
    /// through — the inverse of an assertion. Pattern-match guards compile
    /// to this.
    Test(Label, Test),
    /// Read the literal in `register` and look it up in `table`; on a hit
    /// jump to the associated label, on a miss jump to `error`.
    ConditionalJump { register: Register, error: Label, table: Vec<(Literal, Label)> },
    /// Signal a pattern-match failure: fatal to the process, not the engine.
    Badmatch,
    /// Call: push a continuation, then transfer control per the call site.
    Call(FnCall, FnKind),
    /// Tail call: same resolution as `Call`, but the current continuation is
    /// reused, so a tail-call chain runs in constant stack space.
    TailCall(FnCall, FnKind),
    /// Box a closure capturing the first `environment_size` globals and
    /// write it to `Global(0)`.
    MakeLambda { first_label: Label, module: Atom, arity: Arity, environment_size: u32 },
    /// Cons `head` onto `tail` and write the list to `target`.
    ConsList { head: Value, tail: Value, target: Register },
    /// Destructure the non-empty list in `list` into `head` and `tail`;
    /// signals `Badmatch` if the register does not hold a non-empty list.
    SplitList { list: Register, head: Register, tail: Register },
    /// As `SplitList`, writing only the tail.
    SplitListTail { list: Register, tail: Register },
    /// As `SplitList`, writing only the head.
    SplitListHead { list: Register, head: Register },
    /// Build a tuple from the evaluated elements and write it to `target`.
    MakeTuple { target: Register, elements: Vec<Value> },
    /// Copy the `element`-th slot (0-indexed) of the tuple in `tuple` into
    /// `target`; an out-of-range index is an engine-level fault.
    GetTupleElement { tuple: Register, element: u32, target: Register },
    /// For each `(key, register)` pair look the key up in the map held in
    /// `map`: if every key is present each value is written to its register
    /// and control falls through; if any key is absent control jumps to
    /// `label` and no register is written (all-or-nothing).
    GetMapElements { label: Label, map: Register, elements: Vec<(Literal, Register)> },
    /// Create a new process and write its identifier to the spawning
    /// process's `Global(0)`.
    Spawn(Spawn),
    /// Park the process; a message arrival resumes it at the label.
    Sleep(Label),
    /// Terminate the current process immediately, releasing its resources.
    Kill,
    /// Register interest in another process's termination. The notification
    /// mechanism lives outside this instruction set.
    Monitor,
    /// Evaluate `message` and enqueue it into the mailbox of the process
    /// named by `process`; delivery to a nonexistent or terminated process
    /// is silently dropped.
    Send { message: Value, process: Value },
    /// Copy the oldest unconsumed message into `message` and advance the
    /// selection cursor, without removing it; with no unconsumed message
    /// jump to `on_mailbox_empty` instead, writing nothing.
    PeekMessage { on_mailbox_empty: Label, message: Register },
    /// Remove the currently selected message from the mailbox.
    RemoveMessage,
    /// Write the current process's own identifier to the register.
    PidSelf(Register),
}

impl Default for Value {
    /// Registers and operands default to `Nil`, the absence of a value.
    fn default() -> (v: Value)
        ensures
            v is Nil,
    {
        Value::Nil
    }
}

impl Default for Instruction {
    fn default() -> (i: Instruction)
        ensures
            i is Halt,
    {
        Instruction::Halt
    }
}

impl Value {
    /// The immediate term this operand carries. Asking this of a register
    /// indirection or of `Nil` is a contract violation: such an operand has
    /// no literal to give, and defaulting silently would mask the bug.
    pub fn into_literal(self) -> (l: Literal)
        requires
            self is Literal,
        ensures
            l == self->Literal_0,
    {
        match self {
            Value::Literal(l) => l,
            _ => unreached(),
        }
    }
}

impl From<Literal> for Value {
    fn from(l: Literal) -> (v: Value) {
        Value::Literal(l)
    }
}

impl vstd::std_specs::convert::FromSpecImpl<Literal> for Value {
    open spec fn obeys_from_spec() -> bool {
        true
    }

    open spec fn from_spec(l: Literal) -> Value {
        Value::Literal(l)
    }
}

/// An engine-level fault: a violation of the compiler/loader contract
/// (an unresolved label, an out-of-range register, a mismatched closure
/// arity). These never occur for conforming bytecode; the engine surfaces
/// them distinctly instead of corrupting any process.
#[derive(Clone, Copy, Debug, PartialEq, Eq, Structural)]
pub enum Fault {
    /// A named module is not loaded.
    UnknownModule,
    /// A label does not resolve to an offset in its module.
    UnresolvedLabel,
    /// A register index lies outside the declared extent, or a local is
    /// read with no window allocated.
    RegisterOutOfRange,
    /// A window operation found no local window, or not enough locals.
    MissingFrame,
    /// An operand did not hold the kind of term the instruction needs.
    BadOperand,
    /// A tuple was indexed beyond its size.
    TupleIndexOutOfRange,
    /// A lambda was applied or spawned with an arity other than the one it
    /// captured.
    ClosureArityMismatch,
}

/// A process-level failure: a bytecode-visible condition reachable by
/// legitimate programs. It terminates only the faulting process; other
/// processes and the engine are untouched.
#[derive(Clone, Copy, Debug, PartialEq, Eq, Structural)]
pub enum Signal {
    /// A value could not be matched against a pattern.
    Badmatch,
    /// A qualified call named a function its module does not export.
    UnknownFunction,
    /// The runtime reported a failure for a built-in call.
    RuntimeFailure,
}

} // verus!
