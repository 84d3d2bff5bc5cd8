//! The process table and cooperative scheduler, and the fetch/decode/
//! dispatch step that drives one process at a time.
//!
//! Every process owns its registers, stack and heap terms outright; the
//! only cross-process effect any instruction has is appending to another
//! process's mailbox. A fault in one process terminates that process alone.

use vstd::prelude::*;

use crate::bytecode::Arity;
use crate::bytecode::Fault;
use crate::bytecode::Instruction;
use crate::bytecode::Literal;
use crate::bytecode::Signal;
use crate::bytecode::Value;
use crate::modules::find_module;
use crate::modules::Program;
use crate::process::Location;
use crate::process::Process;
use crate::process::Status;
use crate::registers::RegisterFile;
use crate::term::label_offset;
use crate::term::val_eq;

verus! {

/// Where a call resolution went wrong: at the bytecode level (the named
/// function is not registered — fatal to the calling process only) or at
/// the loader level (a label table that does not cover a label the code
/// uses — an engine fault).
pub enum CallFault {
    Unknown,
    Engine(Fault),
}

/// The engine: the table of every process ever spawned (terminated ones
/// keep their slot, so process identifiers are never reused), the next
/// fresh identifier, the round-robin cursor, and the global register extent
/// every process is created with.
pub struct Scheduler {
    pub processes: Vec<Process>,
    pub next_pid: u64,
    pub rr: usize,
    pub global_extent: usize,
}

/// The index of the process with the given identifier.
pub open spec fn find_pid(procs: Seq<Process>, pid: u64) -> Option<int>
    decreases procs.len(),
{
    if procs.len() == 0 {
        None
    } else if procs[0].pid == pid {
        Some(0int)
    } else {
        match find_pid(procs.skip(1), pid) {
            Some(i) => Some(i + 1),
            None => None,
        }
    }
}

/// `x` reduced into `[0, n)`, for `0 <= x < 2n`: the round-robin wrap.
pub open spec fn wrap_index(x: int, n: int) -> int {
    if x < n {
        x
    } else {
        x - n
    }
}

impl Scheduler {
    pub open spec fn wf(self) -> bool {
        &&& self.global_extent <= u32::MAX
        &&& forall|i: int|
            0 <= i < self.processes@.len() ==> (#[trigger] self.processes@[i]).wf()
        &&& forall|i: int|
            0 <= i < self.processes@.len() ==> (#[trigger] self.processes@[i]).pid
                < self.next_pid
        &&& forall|i: int, j: int|
            0 <= i < j < self.processes@.len() ==> (#[trigger] self.processes@[i]).pid != (
            #[trigger] self.processes@[j]).pid
    }

    pub fn new(global_extent: usize) -> (s: Scheduler)
        requires
            global_extent <= u32::MAX,
        ensures
            s.wf(),
            s.processes@.len() == 0,
            s.next_pid == 0,
            s.global_extent == global_extent,
    {
        Scheduler { processes: Vec::new(), next_pid: 0, rr: 0, global_extent }
    }

    /// Appends a fresh runnable process starting at `entry`, with `args`
    /// copied into its first global registers, and returns its identifier.
    /// No existing process is touched.
    pub fn spawn_process(&mut self, entry: Location, args: Vec<Value>) -> (r: Result<u64, Fault>)
        requires
            old(self).wf(),
            old(self).next_pid < u64::MAX,
        ensures
            final(self).wf(),
            final(self).global_extent == old(self).global_extent,
            r matches Err(f) ==> f == Fault::RegisterOutOfRange && *final(self) == *old(self),
            r is Ok <==> args@.len() <= old(self).global_extent,
            r matches Ok(pid) ==> {
                &&& pid == old(self).next_pid
                &&& final(self).next_pid == old(self).next_pid + 1
                &&& final(self).processes@.len() == old(self).processes@.len() + 1
                &&& forall|i: int|
                    0 <= i < old(self).processes@.len() ==> #[trigger] final(self).processes@[i]
                        == old(self).processes@[i]
                &&& final(self).processes@.last().pid == pid
                &&& final(self).processes@.last().status is Runnable
                &&& final(self).processes@.last().location == entry
                &&& final(self).processes@.last().stack@.len() == 0
                &&& final(self).processes@.last().mailbox.msgs().len() == 0
                &&& final(self).processes@.last().registers@.windows.len() == 0
                &&& final(self).processes@.last().registers@.globals.len()
                    == old(self).global_extent
                &&& forall|i: int|
                    0 <= i < args@.len()
                        ==> #[trigger] final(self).processes@.last().registers@.globals[i]
                        == args@[i]
                &&& forall|i: int|
                    args@.len() <= i < old(self).global_extent
                        ==> (#[trigger] final(self).processes@.last().registers@.globals[i]) is Nil
            },
    {
        if args.len() > self.global_extent {
            return Err(Fault::RegisterOutOfRange);
        }
        let pid = self.next_pid;
        let mut p = Process::new(pid, self.global_extent, entry);
        let ghost args0 = args@;
        let mut rest = args;
        let n = rest.len();
        for k in 0..n
            invariant
                n == args0.len(),
                rest@ == args0.skip(k as int),
                n <= p.registers@.globals.len(),
                p.registers@.globals.len() == old(self).global_extent,
                p.registers@.windows.len() == 0,
                p.pid == pid,
                p.status is Runnable,
                p.location == entry,
                p.stack@.len() == 0,
                p.mailbox.msgs().len() == 0,
                p.mailbox.cursor_at() == 0,
                forall|i: int|
                    0 <= i < k ==> #[trigger] p.registers@.globals[i] == args0[i],
                forall|i: int|
                    k <= i < old(self).global_extent ==> (#[trigger] p.registers@.globals[i])
                        is Nil,
            decreases n - k,
        {
            let v = rest.remove(0);
            proof {
                assert(v == args0[k as int]);
                assert(rest@ =~= args0.skip(k + 1));
            }
            p.registers.globals[k] = v;
        }
        self.processes.push(p);
        self.next_pid = pid + 1;
        Ok(pid)
    }

    /// Terminates the process in slot `pidx`, recording the signal that
    /// ended it, and releases its resources: the mailbox is emptied, the
    /// continuation stack dropped and the register banks cleared. No other
    /// process is touched.
    pub fn terminate(&mut self, pidx: usize, sig: Option<Signal>)
        requires
            old(self).wf(),
            pidx < old(self).processes@.len(),
        ensures
            final(self).wf(),
            final(self).global_extent == old(self).global_extent,
            final(self).next_pid == old(self).next_pid,
            final(self).processes@.len() == old(self).processes@.len(),
            forall|i: int|
                0 <= i < old(self).processes@.len() && i != pidx
                    ==> #[trigger] final(self).processes@[i] == old(self).processes@[i],
            final(self).processes@[pidx as int].pid == old(self).processes@[pidx as int].pid,
            final(self).processes@[pidx as int].status is Terminated,
            final(self).processes@[pidx as int].mailbox.msgs().len() == 0,
            final(self).processes@[pidx as int].stack@.len() == 0,
            final(self).processes@[pidx as int].registers@.globals.len() == 0,
            final(self).processes@[pidx as int].registers@.windows.len() == 0,
            final(self).processes@[pidx as int].exit_signal == sig,
    {
        let p = &mut self.processes[pidx];
        p.status = Status::Terminated;
        p.mailbox.purge();
        p.stack = Vec::new();
        p.registers = RegisterFile::new(0);
        p.exit_signal = sig;
    }

    /// Delivers a message to the process with identifier `to`: appends it
    /// to that process's mailbox and makes the process runnable if it was
    /// waiting. Delivery to an unknown or terminated process is silently
    /// dropped, and a terminated process's mailbox stays empty forever.
    pub fn deliver(&mut self, to: u64, msg: Literal)
        requires
            old(self).wf(),
        ensures
            final(self).wf(),
            final(self).global_extent == old(self).global_extent,
            final(self).next_pid == old(self).next_pid,
            final(self).processes@.len() == old(self).processes@.len(),
            forall|i: int|
                0 <= i < old(self).processes@.len() ==> (#[trigger] final(self).processes@[i]).pid
                    == old(self).processes@[i].pid,
            forall|i: int|
                0 <= i < old(self).processes@.len() && old(self).processes@[i].pid != to
                    ==> #[trigger] final(self).processes@[i] == old(self).processes@[i],
            forall|i: int|
                0 <= i < old(self).processes@.len() && old(self).processes@[i].status is Terminated
                    ==> #[trigger] final(self).processes@[i] == old(self).processes@[i],
            forall|i: int|
                0 <= i < old(self).processes@.len() && old(self).processes@[i].pid == to
                    && !(old(self).processes@[i].status is Terminated) ==> {
                    &&& (#[trigger] final(self).processes@[i]).mailbox.msgs()
                        == old(self).processes@[i].mailbox.msgs().push(msg)
                    &&& final(self).processes@[i].mailbox.cursor_at()
                        == old(self).processes@[i].mailbox.cursor_at()
                    &&& final(self).processes@[i].status is Runnable
                    &&& final(self).processes@[i].registers == old(self).processes@[i].registers
                    &&& final(self).processes@[i].stack == old(self).processes@[i].stack
                    &&& final(self).processes@[i].location == old(self).processes@[i].location
                    &&& final(self).processes@[i].pid == old(self).processes@[i].pid
                    &&& final(self).processes@[i].exit_signal == old(self).processes@[i].exit_signal
                },
    {
        let n = self.processes.len();
        let mut k: usize = 0;
        while k < n
            invariant
                *self == *old(self),
                n == self.processes@.len(),
                k <= n,
                old(self).wf(),
                forall|j: int| 0 <= j < k ==> (#[trigger] old(self).processes@[j]).pid != to,
            decreases n - k,
        {
            if self.processes[k].pid == to {
                let p = &mut self.processes[k];
                if matches!(p.status, Status::Terminated) {
                    return ;
                }
                p.mailbox.deliver(msg);
                if matches!(p.status, Status::Waiting { .. }) {
                    p.status = Status::Runnable;
                } else {
                    proof {
                        assert(p.status is Runnable);
                    }
                }
                proof {
                    assert forall|i: int|
                        0 <= i < old(self).processes@.len() && old(self).processes@[i].pid != to
                            implies #[trigger] final(self).processes@[i]
                            == old(self).processes@[i] by {}
                }
                return ;
            }
            k = k + 1;
        }
    }

    /// Where the round-robin scan begins: the cursor, or slot zero once the
    /// cursor has moved past the table's end.
    pub open spec fn scan_start(self) -> int {
        if self.rr < self.processes@.len() {
            self.rr as int
        } else {
            0
        }
    }

    /// The slot of the first runnable process at or after the round-robin
    /// cursor in wrap order, so that every runnable process is eventually
    /// scheduled.
    pub fn select_next(&self) -> (r: Option<usize>)
        ensures
            r matches Some(i) ==> i < self.processes@.len()
                && self.processes@[i as int].status is Runnable,
            r matches Some(i) ==> exists|k: int|
                #![trigger wrap_index(self.scan_start() + k, self.processes@.len() as int)]
                0 <= k < self.processes@.len() && i == wrap_index(
                    self.scan_start() + k,
                    self.processes@.len() as int,
                ) && (forall|j: int|
                    0 <= j < k ==> !((#[trigger] self.processes@[wrap_index(
                        self.scan_start() + j,
                        self.processes@.len() as int,
                    )]).status is Runnable)),
            r is None ==> forall|i: int|
                0 <= i < self.processes@.len() ==> !((#[trigger] self.processes@[i]).status
                    is Runnable),
    {
        let n = self.processes.len();
        if n == 0 {
            return None;
        }
        let start = if self.rr < n {
            self.rr
        } else {
            0
        };
        let mut k: usize = 0;
        while k < n
            invariant
                n == self.processes@.len(),
                start < n,
                start as int == self.scan_start(),
                k <= n,
                forall|j: int|
                    0 <= j < k ==> !((#[trigger] self.processes@[wrap_index(
                        start as int + j,
                        n as int,
                    )]).status is Runnable),
            decreases n - k,
        {
            let idx = if k < n - start {
                start + k
            } else {
                k - (n - start)
            };
            proof {
                assert(idx == wrap_index(start as int + k, n as int));
            }
            if matches!(self.processes[idx].status, Status::Runnable) {
                proof {
                    let kw = k as int;
                    assert(0 <= kw < self.processes@.len() && idx == wrap_index(
                        self.scan_start() + kw,
                        self.processes@.len() as int,
                    ) && (forall|j: int|
                        0 <= j < kw ==> !((#[trigger] self.processes@[wrap_index(
                            self.scan_start() + j,
                            self.processes@.len() as int,
                        )]).status is Runnable)));
                }
                return Some(idx);
            }
            k = k + 1;
        }
        proof {
            assert forall|i: int| 0 <= i < n implies !((#[trigger] self.processes@[i]).status
                is Runnable) by {
                let j = if i >= start {
                    i - start
                } else {
                    i + n - start
                };
                assert(0 <= j < n);
                assert(wrap_index(start as int + j, n as int) == i);
            }
        }
        None
    }
}

/// The instruction a location names, if the module is loaded and the
/// offset is within its code.
pub open spec fn instr_at(prog: Program, loc: Location) -> Option<Instruction> {
    match find_module(prog.modules@, loc.module@) {
        Some(mi) => if loc.ip < prog.modules@[mi].instructions@.len() {
            Some(prog.modules@[mi].instructions@[loc.ip as int])
        } else {
            None
        },
        None => None,
    }
}

/// The operands of a built-in call site are in order: the destination
/// register exists and every argument evaluates to a literal.
pub open spec fn builtin_operands_ok(
    rfv: crate::registers::RegisterFileView,
    arguments: Seq<Value>,
    destination: crate::bytecode::Register,
) -> bool {
    &&& rfv.reg_ok(destination)
    &&& forall|i: int|
        0 <= i < arguments.len() ==> crate::control::resolvable(rfv, #[trigger] arguments[i])
            && crate::control::resolve_spec(rfv, arguments[i]) is Literal
}


/// What a `Send` does: the operands name a pid and a literal, the sender
/// advances, and exactly the named process — if it is alive — receives a
/// term-equal copy of the message at its mailbox tail and becomes runnable.
pub open spec fn send_outcome(
    pre: Scheduler,
    post: Scheduler,
    pidx: int,
    message: Value,
    process: Value,
) -> bool {
    let p0 = pre.processes@[pidx];
    let p1 = post.processes@[pidx];
    let pv = crate::control::resolve_spec(p0.registers@, process);
    let mv = crate::control::resolve_spec(p0.registers@, message);
    &&& pv matches Value::Literal(Literal::Pid(_))
    &&& mv matches Value::Literal(_)
    &&& p1.registers == p0.registers
    &&& p1.stack == p0.stack
    &&& p1.status is Runnable
    &&& p1.location.module@ == p0.location.module@
    &&& p1.location.ip == p0.location.ip + 1
    &&& forall|i: int|
        0 <= i < pre.processes@.len() && (#[trigger] pre.processes@[i]).pid
            == pv->Literal_0->Pid_0 && !(pre.processes@[i].status is Terminated) ==> {
            &&& post.processes@[i].mailbox.msgs().len() == pre.processes@[i].mailbox.msgs().len()
                + 1
            &&& crate::term::lit_eq(post.processes@[i].mailbox.msgs().last(), mv->Literal_0)
            &&& post.processes@[i].mailbox.cursor_at() == pre.processes@[i].mailbox.cursor_at()
            &&& post.processes@[i].status is Runnable
        }
    &&& forall|i: int|
        0 <= i < pre.processes@.len() && i != pidx && (#[trigger] pre.processes@[i]).pid
            != pv->Literal_0->Pid_0 ==> post.processes@[i] == pre.processes@[i]
    &&& (p0.pid != pv->Literal_0->Pid_0 ==> p1.mailbox == p0.mailbox)
}

/// What a `Spawn` does: one fresh runnable child is appended with the
/// entry's arguments (or the captured environment) in its first globals,
/// and the spawner receives the child's identifier in `Global(0)` and
/// advances.
pub open spec fn spawn_outcome(
    pre: Scheduler,
    post: Scheduler,
    prog: Program,
    pidx: int,
    s: crate::bytecode::Spawn,
) -> bool {
    let p0 = pre.processes@[pidx];
    let p1 = post.processes@[pidx];
    let child = post.processes@.last();
    &&& post.processes@.len() == pre.processes@.len() + 1
    &&& post.next_pid == pre.next_pid + 1
    &&& child.pid == pre.next_pid
    &&& child.status is Runnable
    &&& child.stack@.len() == 0
    &&& child.mailbox.msgs().len() == 0
    &&& child.registers@.windows.len() == 0
    &&& child.registers@.globals.len() == pre.global_extent
    &&& p1.registers@.read_reg(crate::bytecode::Register::Global(0)) == Value::Literal(
        Literal::Pid(pre.next_pid),
    )
    &&& crate::registers::unchanged_except(
        p0.registers@,
        p1.registers@,
        crate::bytecode::Register::Global(0),
    )
    &&& p1.stack == p0.stack
    &&& p1.mailbox == p0.mailbox
    &&& p1.location.module@ == p0.location.module@
    &&& p1.location.ip == p0.location.ip + 1
    &&& match s {
        crate::bytecode::Spawn::MFA { module, function, arity, arguments } => {
            &&& child.location.module@ == module@
            &&& ({
                let mm = find_module(prog.modules@, module@);
                mm matches Some(mi) && prog.modules@[mi].spec_export(function@, arity)
                    matches Some(l) && label_offset(prog.modules@[mi].labels@, l) == Some(
                    child.location.ip,
                )
            })
            &&& forall|i: int|
                0 <= i < arguments@.len() ==> val_eq(
                    #[trigger] child.registers@.globals[i],
                    crate::control::resolve_spec(p0.registers@, arguments@[i]),
                )
            &&& forall|i: int|
                arguments@.len() <= i < pre.global_extent
                    ==> (#[trigger] child.registers@.globals[i]) is Nil
        },
        crate::bytecode::Spawn::Lambda { register } => {
            let lam = p0.registers@.read_reg(register)->Literal_0->Lambda_0;
            &&& p0.registers@.read_reg(register) matches Value::Literal(Literal::Lambda(_))
            &&& child.location.module@ == lam.module@
            &&& ({
                let mm = find_module(prog.modules@, lam.module@);
                mm matches Some(mi) && label_offset(prog.modules@[mi].labels@, lam.first_label)
                    == Some(child.location.ip)
            })
            &&& forall|i: int|
                0 <= i < lam.environment@.len() ==> val_eq(
                    #[trigger] child.registers@.globals[i],
                    lam.environment[i],
                )
            &&& forall|i: int|
                lam.environment@.len() <= i < pre.global_extent
                    ==> (#[trigger] child.registers@.globals[i]) is Nil
        },
    }
}

/// A spawn descriptor whose operands are in order. By name: the argument
/// count matches the arity, every argument evaluates, the target is
/// exported and resolved, and the arguments fit a fresh register bank. By
/// lambda: the register holds a zero-arity closure whose entry resolves and
/// whose captured environment fits.
pub open spec fn spawn_conforming(
    pre: Scheduler,
    prog: Program,
    pidx: int,
    s: crate::bytecode::Spawn,
) -> bool {
    let p0 = pre.processes@[pidx];
    match s {
        crate::bytecode::Spawn::MFA { module, function, arity, arguments } => {
            let mm = find_module(prog.modules@, module@);
            &&& arguments@.len() == arity
            &&& forall|i: int|
                0 <= i < arguments@.len() ==> crate::control::resolvable(
                    p0.registers@,
                    #[trigger] arguments@[i],
                )
            &&& mm matches Some(mi) && prog.modules@[mi].spec_export(function@, arity)
                matches Some(l) && label_offset(prog.modules@[mi].labels@, l) is Some
            &&& arguments@.len() <= pre.global_extent
            &&& p0.registers@.globals.len() > 0
        },
        crate::bytecode::Spawn::Lambda { register } => {
            let lamv = p0.registers@.read_reg(register);
            let lam = lamv->Literal_0->Lambda_0;
            &&& p0.registers@.reg_ok(register)
            &&& lamv matches Value::Literal(Literal::Lambda(_))
            &&& lam.arity == 0
            &&& ({
                let mm = find_module(prog.modules@, lam.module@);
                mm matches Some(mi) && label_offset(prog.modules@[mi].labels@, lam.first_label)
                    is Some
            })
            &&& lam.environment@.len() <= pre.global_extent
            &&& p0.registers@.globals.len() > 0
        },
    }
}

/// The per-instruction contract of one dispatch step, for the opcodes whose
/// effect lives in the stepped process (and, for `Send` and `Spawn`, in one
/// other table slot): when the operands are in order the step succeeds, and
/// a successful step has exactly the instruction's effect.
pub open spec fn step_claims(
    pre: Scheduler,
    post: Scheduler,
    prog: Program,
    pidx: int,
    m0: crate::modules::Module,
    instr: Instruction,
    ok: bool,
) -> bool {
    let p0 = pre.processes@[pidx];
    let p1 = post.processes@[pidx];
    match instr {
        Instruction::Move(v, target) => {
            &&& (p0.registers@.reg_ok(target) && crate::control::resolvable(p0.registers@, v)
                ==> ok)
            &&& (ok ==> {
                &&& val_eq(
                    p1.registers@.read_reg(target),
                    crate::control::resolve_spec(p0.registers@, v),
                )
                &&& crate::registers::unchanged_except(p0.registers@, p1.registers@, target)
                &&& p1.stack == p0.stack
                &&& p1.mailbox == p0.mailbox
                &&& p1.location.module@ == p0.location.module@
                &&& p1.location.ip == p0.location.ip + 1
            })
        },
        Instruction::Jump(l) => {
            &&& (label_offset(m0.labels@, l) is Some ==> ok)
            &&& (ok ==> {
                &&& p1.registers == p0.registers
                &&& p1.stack == p0.stack
                &&& p1.mailbox == p0.mailbox
                &&& p1.location.module@ == p0.location.module@
                &&& label_offset(m0.labels@, l) == Some(p1.location.ip)
            })
        },
        Instruction::Test(l, t) => {
            &&& (label_offset(m0.labels@, l) is Some && crate::control::test_defined(
                p0.registers@,
                t,
            ) ==> ok)
            &&& (ok ==> {
                &&& p1.registers == p0.registers
                &&& p1.stack == p0.stack
                &&& p1.mailbox == p0.mailbox
                &&& p1.location.module@ == p0.location.module@
                &&& (crate::control::test_spec(p0.registers@, t) ==> p1.location.ip
                    == p0.location.ip + 1)
                &&& (!crate::control::test_spec(p0.registers@, t) ==> label_offset(m0.labels@, l)
                    == Some(p1.location.ip))
            })
        },
        Instruction::ConditionalJump { register, error, table } => {
            &&& ({
                &&& p0.registers@.reg_ok(register)
                &&& p0.registers@.read_reg(register) matches Value::Literal(_)
                &&& label_offset(m0.labels@, error) is Some
                &&& match crate::term::lookup(
                    table@,
                    p0.registers@.read_reg(register)->Literal_0,
                ) {
                    Some(l2) => label_offset(m0.labels@, l2) is Some,
                    None => true,
                }
            } ==> ok)
            &&& (ok ==> {
                &&& p1.registers == p0.registers
                &&& p1.stack == p0.stack
                &&& p1.mailbox == p0.mailbox
                &&& p1.location.module@ == p0.location.module@
                &&& p0.registers@.read_reg(register) matches Value::Literal(_)
                &&& match crate::term::lookup(
                    table@,
                    p0.registers@.read_reg(register)->Literal_0,
                ) {
                    Some(l2) => label_offset(m0.labels@, l2) == Some(p1.location.ip),
                    None => label_offset(m0.labels@, error) == Some(p1.location.ip),
                }
            })
        },
        Instruction::PeekMessage { on_mailbox_empty, message } => {
            &&& (p0.registers@.reg_ok(message) && label_offset(m0.labels@, on_mailbox_empty)
                is Some ==> ok)
            &&& (ok ==> {
                &&& p1.stack == p0.stack
                &&& p1.location.module@ == p0.location.module@
                &&& if p0.mailbox.cursor_at() < p0.mailbox.msgs().len() {
                    &&& p1.mailbox.msgs() == p0.mailbox.msgs()
                    &&& p1.mailbox.cursor_at() == p0.mailbox.cursor_at() + 1
                    &&& p1.registers@.read_reg(message) matches Value::Literal(m2)
                        && crate::term::lit_eq(
                        m2,
                        p0.mailbox.msgs()[p0.mailbox.cursor_at() as int],
                    )
                    &&& crate::registers::unchanged_except(p0.registers@, p1.registers@, message)
                    &&& p1.location.ip == p0.location.ip + 1
                } else {
                    &&& p1.mailbox == p0.mailbox
                    &&& p1.registers == p0.registers
                    &&& label_offset(m0.labels@, on_mailbox_empty) == Some(p1.location.ip)
                }
            })
        },
        Instruction::RemoveMessage => {
            &&& (p0.mailbox.cursor_at() > 0 ==> ok)
            &&& (ok ==> {
                &&& p0.mailbox.cursor_at() > 0
                &&& p1.mailbox.msgs() == p0.mailbox.msgs().remove(
                    p0.mailbox.cursor_at() as int - 1,
                )
                &&& p1.mailbox.cursor_at() == p0.mailbox.cursor_at() - 1
                &&& p1.registers == p0.registers
                &&& p1.stack == p0.stack
                &&& p1.location.module@ == p0.location.module@
                &&& p1.location.ip == p0.location.ip + 1
            })
        },
        Instruction::Send { message, process } => {
            &&& ({
                &&& crate::control::resolvable(p0.registers@, process)
                &&& crate::control::resolve_spec(p0.registers@, process) matches Value::Literal(
                    Literal::Pid(_),
                )
                &&& crate::control::resolvable(p0.registers@, message)
                &&& crate::control::resolve_spec(p0.registers@, message) matches Value::Literal(_)
            } ==> ok)
            &&& (ok ==> send_outcome(pre, post, pidx, message, process))
        },
        Instruction::Spawn(sp) => {
            &&& (spawn_conforming(pre, prog, pidx, sp) ==> ok && p1.status is Runnable)
            &&& (ok && p1.status is Runnable ==> spawn_outcome(pre, post, prog, pidx, sp))
        },
        Instruction::Halt => ok && p1.status is Terminated && p1.exit_signal is None
            && p1.mailbox.msgs().len() == 0,
        Instruction::Kill => ok && p1.status is Terminated && p1.exit_signal is None
            && p1.mailbox.msgs().len() == 0,
        Instruction::Badmatch => ok && p1.status is Terminated && p1.exit_signal == Some(
            Signal::Badmatch,
        ) && p1.mailbox.msgs().len() == 0,
        Instruction::Return => ok && (if p0.stack@.len() > 0 {
            &&& p1.registers == p0.registers
            &&& p1.mailbox == p0.mailbox
            &&& p1.stack@ == p0.stack@.drop_last()
            &&& p1.location == p0.stack@.last()
            &&& p1.status is Runnable
        } else {
            &&& p1.status is Terminated
            &&& p1.exit_signal is None
        }),
        Instruction::Sleep(l) => {
            &&& (label_offset(m0.labels@, l) is Some ==> ok)
            &&& (ok ==> {
                &&& p1.registers == p0.registers
                &&& p1.stack == p0.stack
                &&& p1.mailbox == p0.mailbox
                &&& p1.status is Waiting
                &&& p1.location.module@ == p0.location.module@
                &&& label_offset(m0.labels@, l) == Some(p1.location.ip)
            })
        },
        Instruction::Label(_) => {
            &&& ok
            &&& p1.registers == p0.registers
            &&& p1.stack == p0.stack
            &&& p1.mailbox == p0.mailbox
            &&& p1.location.module@ == p0.location.module@
            &&& p1.location.ip == p0.location.ip + 1
        },
        Instruction::Monitor => {
            &&& ok
            &&& p1.registers == p0.registers
            &&& p1.stack == p0.stack
            &&& p1.mailbox == p0.mailbox
            &&& p1.location.module@ == p0.location.module@
            &&& p1.location.ip == p0.location.ip + 1
        },
        Instruction::Clear(target) => {
            &&& (p0.registers@.reg_ok(target) ==> ok)
            &&& (ok ==> {
                &&& p1.registers@ == p0.registers@.write_reg(target, Value::Nil)
                &&& p1.stack == p0.stack
                &&& p1.mailbox == p0.mailbox
                &&& p1.location.module@ == p0.location.module@
                &&& p1.location.ip == p0.location.ip + 1
            })
        },
        Instruction::PidSelf(target) => {
            &&& (p0.registers@.reg_ok(target) ==> ok)
            &&& (ok ==> {
                &&& p1.registers@ == p0.registers@.write_reg(
                    target,
                    Value::Literal(Literal::Pid(p0.pid)),
                )
                &&& p1.stack == p0.stack
                &&& p1.mailbox == p0.mailbox
                &&& p1.location.module@ == p0.location.module@
                &&& p1.location.ip == p0.location.ip + 1
            })
        },
        Instruction::Swap(a, b) => {
            &&& (p0.registers@.reg_ok(a) && p0.registers@.reg_ok(b) ==> ok)
            &&& (ok ==> {
                &&& val_eq(p1.registers@.read_reg(a), p0.registers@.read_reg(b))
                &&& val_eq(p1.registers@.read_reg(b), p0.registers@.read_reg(a))
                &&& crate::registers::same_shape(p0.registers@, p1.registers@)
                &&& forall|r2: crate::bytecode::Register|
                    r2 != a && r2 != b && p0.registers@.reg_ok(r2)
                        ==> #[trigger] p1.registers@.read_reg(r2) == p0.registers@.read_reg(r2)
                &&& p1.stack == p0.stack
                &&& p1.mailbox == p0.mailbox
                &&& p1.location.module@ == p0.location.module@
                &&& p1.location.ip == p0.location.ip + 1
            })
        },
        Instruction::Allocate { words, keep_registers } => ok && {
            &&& p1.registers@.globals.len() == p0.registers@.globals.len()
            &&& forall|i: int|
                0 <= i < keep_registers && i < p0.registers@.globals.len()
                    ==> #[trigger] p1.registers@.globals[i] == p0.registers@.globals[i]
            &&& forall|i: int|
                keep_registers <= i < p0.registers@.globals.len()
                    ==> (#[trigger] p1.registers@.globals[i]) is Nil
            &&& p1.registers@.windows.len() == p0.registers@.windows.len() + 1
            &&& p1.registers@.windows.last().len() == words
            &&& forall|i: int|
                0 <= i < words ==> (#[trigger] p1.registers@.windows.last()[i]) is Nil
            &&& p1.stack == p0.stack
            &&& p1.mailbox == p0.mailbox
            &&& p1.location.module@ == p0.location.module@
            &&& p1.location.ip == p0.location.ip + 1
        },
        Instruction::Deallocate { words: _ } => {
            &&& (p0.registers@.windows.len() > 0 ==> ok)
            &&& (ok ==> {
                &&& p1.registers@.globals == p0.registers@.globals
                &&& p1.registers@.windows == p0.registers@.windows.drop_last()
                &&& p1.stack == p0.stack
                &&& p1.mailbox == p0.mailbox
                &&& p1.location.module@ == p0.location.module@
                &&& p1.location.ip == p0.location.ip + 1
            })
        },
        Instruction::RestoreLocals => {
            &&& (p0.registers@.windows.len() > 0 ==> ok)
            &&& (ok ==> {
                &&& p1.registers@.globals == p0.registers@.globals
                &&& p1.registers@.windows == p0.registers@.windows.drop_last()
                &&& p1.stack == p0.stack
                &&& p1.mailbox == p0.mailbox
                &&& p1.location.module@ == p0.location.module@
                &&& p1.location.ip == p0.location.ip + 1
            })
        },
        Instruction::ShiftLocals { amount } => {
            &&& (p0.registers@.windows.len() > 0 && amount
                <= p0.registers@.windows.last().len() ==> ok)
            &&& (ok ==> {
                &&& p1.registers@.globals == p0.registers@.globals
                &&& p1.registers@.windows.len() == p0.registers@.windows.len()
                &&& p1.registers@.windows.last() == p0.registers@.windows.last().skip(
                    amount as int,
                )
                &&& p1.stack == p0.stack
                &&& p1.mailbox == p0.mailbox
                &&& p1.location.module@ == p0.location.module@
                &&& p1.location.ip == p0.location.ip + 1
            })
        },
        Instruction::MakeLambda { first_label, module, arity, environment_size } => {
            &&& (environment_size <= p0.registers@.globals.len() && p0.registers@.globals.len()
                > 0 ==> ok)
            &&& (ok ==> {
                let slot = p1.registers@.read_reg(crate::bytecode::Register::Global(0));
                &&& slot matches Value::Literal(Literal::Lambda(_))
                &&& ({
                    let lam = slot->Literal_0->Lambda_0;
                    &&& lam.module@ == module@
                    &&& lam.first_label == first_label
                    &&& lam.arity == arity
                    &&& lam.environment@.len() == environment_size
                    &&& forall|i: int|
                        0 <= i < environment_size ==> val_eq(
                            #[trigger] lam.environment[i],
                            p0.registers@.globals[i],
                        )
                })
                &&& crate::registers::unchanged_except(
                    p0.registers@,
                    p1.registers@,
                    crate::bytecode::Register::Global(0),
                )
                &&& p1.stack == p0.stack
                &&& p1.mailbox == p0.mailbox
                &&& p1.location.module@ == p0.location.module@
                &&& p1.location.ip == p0.location.ip + 1
            })
        },
        Instruction::ConsList { head, tail, target } => {
            &&& (p0.registers@.reg_ok(target) && crate::control::resolvable(p0.registers@, head)
                && crate::control::resolvable(p0.registers@, tail) ==> ok)
            &&& (ok ==> {
                &&& crate::control::is_cons_value(p1.registers@.read_reg(target))
                &&& val_eq(
                    crate::control::cons_head_of(p1.registers@.read_reg(target)),
                    crate::control::resolve_spec(p0.registers@, head),
                )
                &&& val_eq(
                    crate::control::cons_tail_of(p1.registers@.read_reg(target)),
                    crate::control::resolve_spec(p0.registers@, tail),
                )
                &&& crate::registers::unchanged_except(p0.registers@, p1.registers@, target)
                &&& p1.stack == p0.stack
                &&& p1.mailbox == p0.mailbox
                &&& p1.location.module@ == p0.location.module@
                &&& p1.location.ip == p0.location.ip + 1
            })
        },
        Instruction::SplitList { list, head, tail } => {
            &&& ({
                &&& p0.registers@.reg_ok(list)
                &&& p0.registers@.reg_ok(head)
                &&& p0.registers@.reg_ok(tail)
            } ==> ok)
            &&& (ok && p1.status is Runnable ==> {
                &&& crate::control::is_cons_value(p0.registers@.read_reg(list))
                &&& val_eq(
                    p1.registers@.read_reg(tail),
                    crate::control::cons_tail_of(p0.registers@.read_reg(list)),
                )
                &&& (head != tail ==> val_eq(
                    p1.registers@.read_reg(head),
                    crate::control::cons_head_of(p0.registers@.read_reg(list)),
                ))
                &&& crate::registers::unchanged_except_two(
                    p0.registers@,
                    p1.registers@,
                    head,
                    tail,
                )
                &&& p1.stack == p0.stack
                &&& p1.mailbox == p0.mailbox
                &&& p1.location.module@ == p0.location.module@
                &&& p1.location.ip == p0.location.ip + 1
            })
            &&& (ok && p1.status is Terminated ==> p1.exit_signal == Some(Signal::Badmatch)
                && !crate::control::is_cons_value(p0.registers@.read_reg(list)))
        },
        Instruction::SplitListHead { list, head } => {
            &&& (p0.registers@.reg_ok(list) && p0.registers@.reg_ok(head) ==> ok)
            &&& (ok && p1.status is Runnable ==> {
                &&& crate::control::is_cons_value(p0.registers@.read_reg(list))
                &&& val_eq(
                    p1.registers@.read_reg(head),
                    crate::control::cons_head_of(p0.registers@.read_reg(list)),
                )
                &&& crate::registers::unchanged_except(p0.registers@, p1.registers@, head)
                &&& p1.stack == p0.stack
                &&& p1.mailbox == p0.mailbox
                &&& p1.location.module@ == p0.location.module@
                &&& p1.location.ip == p0.location.ip + 1
            })
            &&& (ok && p1.status is Terminated ==> p1.exit_signal == Some(Signal::Badmatch)
                && !crate::control::is_cons_value(p0.registers@.read_reg(list)))
        },
        Instruction::SplitListTail { list, tail } => {
            &&& (p0.registers@.reg_ok(list) && p0.registers@.reg_ok(tail) ==> ok)
            &&& (ok && p1.status is Runnable ==> {
                &&& crate::control::is_cons_value(p0.registers@.read_reg(list))
                &&& val_eq(
                    p1.registers@.read_reg(tail),
                    crate::control::cons_tail_of(p0.registers@.read_reg(list)),
                )
                &&& crate::registers::unchanged_except(p0.registers@, p1.registers@, tail)
                &&& p1.stack == p0.stack
                &&& p1.mailbox == p0.mailbox
                &&& p1.location.module@ == p0.location.module@
                &&& p1.location.ip == p0.location.ip + 1
            })
            &&& (ok && p1.status is Terminated ==> p1.exit_signal == Some(Signal::Badmatch)
                && !crate::control::is_cons_value(p0.registers@.read_reg(list)))
        },
        Instruction::MakeTuple { target, elements } => {
            &&& (p0.registers@.reg_ok(target) && crate::control::all_resolvable(
                p0.registers@,
                elements@,
            ) ==> ok)
            &&& (ok ==> {
                &&& p1.registers@.read_reg(target) matches Value::Literal(Literal::Tuple(es))
                    && es.len() == elements@.len() && (forall|i: int|
                    0 <= i < elements@.len() ==> val_eq(
                        #[trigger] es[i],
                        crate::control::resolve_spec(p0.registers@, elements@[i]),
                    ))
                &&& crate::registers::unchanged_except(p0.registers@, p1.registers@, target)
                &&& p1.stack == p0.stack
                &&& p1.mailbox == p0.mailbox
                &&& p1.location.module@ == p0.location.module@
                &&& p1.location.ip == p0.location.ip + 1
            })
        },
        Instruction::GetTupleElement { tuple, element, target } => {
            &&& ({
                &&& p0.registers@.reg_ok(tuple)
                &&& p0.registers@.reg_ok(target)
                &&& p0.registers@.read_reg(tuple) matches Value::Literal(Literal::Tuple(es))
                    && element < es.len()
            } ==> ok)
            &&& (ok ==> {
                &&& p0.registers@.read_reg(tuple) matches Value::Literal(Literal::Tuple(es))
                    && val_eq(p1.registers@.read_reg(target), es[element as int])
                &&& crate::registers::unchanged_except(p0.registers@, p1.registers@, target)
                &&& p1.stack == p0.stack
                &&& p1.mailbox == p0.mailbox
                &&& p1.location.module@ == p0.location.module@
                &&& p1.location.ip == p0.location.ip + 1
            })
        },
        Instruction::GetMapElements { label, map, elements } => {
            &&& ({
                &&& p0.registers@.reg_ok(map)
                &&& crate::control::targets_ok(p0.registers@, elements@)
                &&& label_offset(m0.labels@, label) is Some
            } ==> ok)
            &&& (ok ==> {
                &&& p1.stack == p0.stack
                &&& p1.mailbox == p0.mailbox
                &&& p1.location.module@ == p0.location.module@
                &&& if p0.registers@.read_reg(map) matches Value::Literal(Literal::Mapping(en))
                    && crate::control::has_all_keys(en@, elements@) {
                    // Every key present: the full requested set is written
                    // and control falls through.
                    &&& ({
                        let en = p0.registers@.read_reg(map)->Literal_0->Mapping_0;
                        forall|i: int|
                            0 <= i < elements@.len() && crate::control::last_write_for(
                                elements@,
                                i,
                            ) ==> val_eq(
                                p1.registers@.read_reg((#[trigger] elements@[i]).1),
                                crate::term::lookup(en@, elements@[i].0)->Some_0,
                            )
                    })
                    &&& crate::registers::same_shape(p0.registers@, p1.registers@)
                    &&& forall|r2: crate::bytecode::Register|
                        p0.registers@.reg_ok(r2) && (forall|i: int|
                            0 <= i < elements@.len() ==> (#[trigger] elements@[i]).1 != r2)
                            ==> #[trigger] p1.registers@.read_reg(r2) == p0.registers@.read_reg(
                            r2,
                        )
                    &&& p1.location.ip == p0.location.ip + 1
                } else {
                    // Some key absent (or no map at all): no register is
                    // written and control reaches the miss label.
                    &&& p1.registers@ == p0.registers@
                    &&& label_offset(m0.labels@, label) == Some(p1.location.ip)
                }
            })
        },
        Instruction::Call(c, _) => match c {
            crate::bytecode::FnCall::BuiltIn { arguments, destination, .. } => {
                &&& (ok <==> builtin_operands_ok(p0.registers@, arguments@, destination))
                &&& (builtin_operands_ok(p0.registers@, arguments@, destination) ==> {
                    ||| p1.status is Runnable
                    ||| (p1.status is Terminated && p1.exit_signal == Some(
                        Signal::RuntimeFailure,
                    ))
                })
                &&& (ok && p1.status is Runnable ==> {
                    &&& p1.registers@.read_reg(destination) is Literal
                    &&& crate::registers::unchanged_except(
                        p0.registers@,
                        p1.registers@,
                        destination,
                    )
                    &&& p1.stack == p0.stack
                    &&& p1.mailbox == p0.mailbox
                    &&& p1.location.module@ == p0.location.module@
                    &&& p1.location.ip == p0.location.ip + 1
                })
            },
            crate::bytecode::FnCall::ApplyLambda { .. } => apply_lambda_entry(
                p0,
                p1,
                prog,
                c,
                ok,
            ),
            _ => named_call_entry(p0, p1, prog, c, ok),
        },
        Instruction::TailCall(c, _) => match c {
            crate::bytecode::FnCall::BuiltIn { destination, .. } => (ok && p1.status
                is Runnable) ==> {
                &&& p1.registers@.read_reg(destination) is Literal
                &&& crate::registers::unchanged_except(p0.registers@, p1.registers@, destination)
                &&& p1.mailbox == p0.mailbox
                &&& p0.stack@.len() > 0
                &&& p1.stack@ == p0.stack@.drop_last()
                &&& p1.location == p0.stack@.last()
            },
            crate::bytecode::FnCall::ApplyLambda { .. } => apply_lambda_entry(
                p0,
                p1,
                prog,
                c,
                ok,
            ),
            _ => named_call_entry(p0, p1, prog, c, ok),
        },
        _ => true,
    }
}



/// What entering a named call does, whether or not the call reuses the
/// frame: registers and mailbox untouched, control at the resolved target —
/// the label itself for an intra-module call, the exported entry for a
/// qualified one.
pub open spec fn named_call_entry(
    p0: Process,
    p1: Process,
    prog: Program,
    c: crate::bytecode::FnCall,
    ok: bool,
) -> bool {
    (ok && p1.status is Runnable) ==> {
        &&& p1.registers == p0.registers
        &&& p1.mailbox == p0.mailbox
        &&& p1.location.module@ == c.spec_module()@
        &&& ({
            let mm = find_module(prog.modules@, c.spec_module()@);
            match c {
                crate::bytecode::FnCall::Local { label, .. } => mm matches Some(mi)
                    && label_offset(prog.modules@[mi].labels@, label) == Some(p1.location.ip),
                crate::bytecode::FnCall::Qualified { function, arity, .. } => mm matches Some(mi)
                    && prog.modules@[mi].spec_export(function@, arity) matches Some(l)
                    && label_offset(prog.modules@[mi].labels@, l) == Some(p1.location.ip),
                _ => true,
            }
        })
    }
}

/// What entering a lambda call does, whether or not the call reuses the
/// frame: the register's closure has the call site's arity, its captured
/// environment is restored term-equally into the globals just above the
/// arguments with every other register untouched, and control is at the
/// closure's resolved entry label.
pub open spec fn apply_lambda_entry(
    p0: Process,
    p1: Process,
    prog: Program,
    c: crate::bytecode::FnCall,
    ok: bool,
) -> bool {
    (ok && p1.status is Runnable) ==> {
        let lamv = p0.registers@.read_reg(c->register);
        let lam = lamv->Literal_0->Lambda_0;
        &&& lamv matches Value::Literal(Literal::Lambda(_))
        &&& lam.arity == c.spec_arity()
        &&& p1.registers@.globals.len() == p0.registers@.globals.len()
        &&& p1.registers@.windows == p0.registers@.windows
        &&& forall|i: int|
            0 <= i < lam.environment@.len() ==> val_eq(
                #[trigger] p1.registers@.globals[c.spec_arity() + i],
                lam.environment[i],
            )
        &&& forall|j: int|
            0 <= j < p0.registers@.globals.len() && !(c.spec_arity() <= j < c.spec_arity()
                + lam.environment@.len())
                ==> #[trigger] p1.registers@.globals[j] == p0.registers@.globals[j]
        &&& p1.mailbox == p0.mailbox
        &&& p1.location.module@ == lam.module@
        &&& ({
            let mm = find_module(prog.modules@, lam.module@);
            mm matches Some(mi) && label_offset(prog.modules@[mi].labels@, lam.first_label)
                == Some(p1.location.ip)
        })
    }
}

/// Everything one successful dispatch of the process in slot `pidx`
/// guarantees: the scheduler frame conditions together with the fetched
/// instruction's [`step_claims`].
pub open spec fn step_post(pre: Scheduler, post: Scheduler, prog: Program, pidx: int) -> bool {
    &&& post.wf()
    &&& post.global_extent == pre.global_extent
    &&& pre.next_pid <= post.next_pid <= pre.next_pid + 1
    &&& pre.processes@.len() <= post.processes@.len() <= pre.processes@.len() + 1
    &&& forall|i: int|
        0 <= i < pre.processes@.len() ==> (#[trigger] post.processes@[i]).pid
            == pre.processes@[i].pid
    &&& forall|i: int|
        0 <= i < pre.processes@.len() && i != pidx && pre.processes@[i].status is Terminated
            ==> #[trigger] post.processes@[i] == pre.processes@[i]
    &&& ({
        let loc0 = pre.processes@[pidx].location;
        instr_at(prog, loc0) matches Some(i2) ==> step_claims(
            pre,
            post,
            prog,
            pidx,
            prog.modules@[find_module(prog.modules@, loc0.module@)->Some_0],
            i2,
            true,
        )
    })
}

/// One engine dispatch happened: some runnable process was stepped, with
/// that step's full guarantees.
pub open spec fn dispatched(pre: Scheduler, post: Scheduler, prog: Program) -> bool {
    exists|pidx: int|
        0 <= pidx < pre.processes@.len() && (#[trigger] pre.processes@[pidx]).status is Runnable
            && step_post(pre, post, prog, pidx)
}

/// `post` is reached from `pre` by exactly `n` single dispatches of
/// runnable processes.
pub open spec fn reachable(pre: Scheduler, post: Scheduler, prog: Program, n: nat) -> bool
    decreases n,
{
    if n == 0 {
        post == pre
    } else {
        exists|mid: Scheduler|
            reachable(pre, mid, prog, (n - 1) as nat) && #[trigger] dispatched(mid, post, prog)
    }
}

/// Resolves a qualified call: the named module, its export table entry for
/// `(function, arity)`, and that label's offset. A name the loaded modules
/// do not export is fatal to the calling process only; a label the loader
/// failed to resolve is an engine fault.
pub fn resolve_call_mfa(prog: &Program, module: &String, function: &String, arity: Arity) -> (r:
    Result<Location, CallFault>)
    ensures
        ({
            let mm = find_module(prog.modules@, module@);
            match r {
                Ok(loc) => {
                    &&& mm matches Some(mi)
                    &&& prog.modules@[mm->Some_0].spec_export(function@, arity) matches Some(l)
                        && label_offset(prog.modules@[mm->Some_0].labels@, l) == Some(loc.ip)
                    &&& loc.module@ == module@
                },
                Err(CallFault::Unknown) => mm is None || prog.modules@[mm->Some_0].spec_export(
                    function@,
                    arity,
                ) is None,
                Err(CallFault::Engine(f)) => {
                    &&& f == Fault::UnresolvedLabel
                    &&& mm matches Some(mi)
                    &&& prog.modules@[mm->Some_0].spec_export(function@, arity) matches Some(l)
                        && label_offset(prog.modules@[mm->Some_0].labels@, l) is None
                },
            }
        }),
{
    let mi = match prog.module_index(module) {
        Some(mi) => mi,
        None => {
            return Err(CallFault::Unknown);
        },
    };
    proof {
        crate::modules::lemma_find_module_bounds(prog.modules@, module@);
    }
    let l = match prog.modules[mi].export_label(function, arity) {
        Some(l) => l,
        None => {
            return Err(CallFault::Unknown);
        },
    };
    match prog.modules[mi].resolve(l) {
        Some(off) => Ok(Location { module: module.clone(), ip: off }),
        None => Err(CallFault::Engine(Fault::UnresolvedLabel)),
    }
}

/// Resolves a label within one named module to a full location.
pub fn resolve_jump(prog: &Program, module: &String, l: crate::bytecode::Label) -> (r: Result<
    usize,
    Fault,
>)
    ensures
        ({
            let mm = find_module(prog.modules@, module@);
            match r {
                Ok(off) => mm matches Some(mi) && label_offset(prog.modules@[mi].labels@, l)
                    == Some(off),
                Err(f) => f == Fault::UnknownModule && mm is None || f == Fault::UnresolvedLabel
                    && (mm matches Some(mi) && label_offset(prog.modules@[mi].labels@, l)
                    is None),
            }
        }),
{
    let mi = match prog.module_index(module) {
        Some(mi) => mi,
        None => {
            return Err(Fault::UnknownModule);
        },
    };
    proof {
        crate::modules::lemma_find_module_bounds(prog.modules@, module@);
    }
    match prog.modules[mi].resolve(l) {
        Some(off) => Ok(off),
        None => Err(Fault::UnresolvedLabel),
    }
}

impl Scheduler {
    /// Resolves a call site and transfers control: a plain call pushes the
    /// return continuation, a tail call reuses the current one, which is
    /// what lets a tail-call chain of any depth run in constant stack
    /// space. A built-in call delegates to the runtime instead and pushes
    /// nothing.
    #[verifier::loop_isolation(false)]
    fn enter_call<R: crate::runtime::Runtime>(
        &mut self,
        prog: &Program,
        rt: &mut R,
        pidx: usize,
        mi: usize,
        ip: usize,
        c: &crate::bytecode::FnCall,
        tail: bool,
    ) -> (r: Result<(), Fault>)
        requires
            old(self).wf(),
            pidx < old(self).processes@.len(),
            old(self).processes@[pidx as int].status is Runnable,
            mi < prog.modules@.len(),
            ip == old(self).processes@[pidx as int].location.ip,
            ip < usize::MAX,
        ensures
            final(self).wf(),
            final(self).global_extent == old(self).global_extent,
            final(self).next_pid == old(self).next_pid,
            final(self).processes@.len() == old(self).processes@.len(),
            forall|i: int|
                0 <= i < old(self).processes@.len() ==> (#[trigger] final(self).processes@[i]).pid
                    == old(self).processes@[i].pid,
            forall|i: int|
                0 <= i < old(self).processes@.len() && i != pidx && old(self).processes@[i].status is Terminated ==> #[trigger] final(self).processes@[i]
                    == old(self).processes@[i],
            forall|i: int|
                0 <= i < old(self).processes@.len() && i != pidx ==> (#[trigger] final(self).processes@[i]).registers == old(self).processes@[i].registers && final(self).processes@[i].stack == old(self).processes@[i].stack,
            (!(c is BuiltIn) && r is Ok && final(self).processes@[pidx as int].status is Runnable
                && tail) ==> final(self).processes@[pidx as int].stack == old(self).processes@[pidx as int].stack,
            (!(c is BuiltIn) && r is Ok && final(self).processes@[pidx as int].status is Runnable
                && !tail) ==> final(self).processes@[pidx as int].stack@ == old(self).processes@[pidx as int].stack@.push(
                Location {
                    module: old(self).processes@[pidx as int].location.module,
                    ip: (ip + 1) as usize,
                },
            ),
            c is BuiltIn ==> (r is Err <==> !builtin_operands_ok(
                old(self).processes@[pidx as int].registers@,
                c->arguments@,
                c->destination,
            )),
            (c is BuiltIn && r is Ok && final(self).processes@[pidx as int].status is Runnable
                && tail) ==> ({
                let p0 = old(self).processes@[pidx as int];
                let p1 = final(self).processes@[pidx as int];
                let dest = c->destination;
                &&& p1.registers@.read_reg(dest) is Literal
                &&& crate::registers::unchanged_except(p0.registers@, p1.registers@, dest)
                &&& p1.mailbox == p0.mailbox
                &&& p0.stack@.len() > 0
                &&& p1.stack@ == p0.stack@.drop_last()
                &&& p1.location == p0.stack@.last()
            }),
            (c is Local || c is Qualified) ==> named_call_entry(
                old(self).processes@[pidx as int],
                final(self).processes@[pidx as int],
                *prog,
                *c,
                r is Ok,
            ),
            (c is ApplyLambda && r is Ok && final(self).processes@[pidx as int].status
                is Runnable) ==> ({
                let p0 = old(self).processes@[pidx as int];
                let p1 = final(self).processes@[pidx as int];
                let lamv = p0.registers@.read_reg(c->register);
                let lam = lamv->Literal_0->Lambda_0;
                &&& lamv matches Value::Literal(Literal::Lambda(_))
                &&& lam.arity == c.spec_arity()
                &&& p1.registers@.globals.len() == p0.registers@.globals.len()
                &&& p1.registers@.windows == p0.registers@.windows
                &&& forall|i: int|
                    0 <= i < lam.environment@.len() ==> val_eq(
                        #[trigger] p1.registers@.globals[c.spec_arity() + i],
                        lam.environment[i],
                    )
                &&& forall|j: int|
                    0 <= j < p0.registers@.globals.len() && !(c.spec_arity() <= j
                        < c.spec_arity() + lam.environment@.len())
                        ==> #[trigger] p1.registers@.globals[j] == p0.registers@.globals[j]
                &&& p1.mailbox == p0.mailbox
                &&& p1.location.module@ == lam.module@
                &&& ({
                    let mm = find_module(prog.modules@, lam.module@);
                    mm matches Some(mi) && label_offset(
                        prog.modules@[mi].labels@,
                        lam.first_label,
                    ) == Some(p1.location.ip)
                })
            }),
            (c is BuiltIn && !tail && builtin_operands_ok(
                old(self).processes@[pidx as int].registers@,
                c->arguments@,
                c->destination,
            )) ==> ({
                let p1 = final(self).processes@[pidx as int];
                ||| p1.status is Runnable
                ||| (p1.status is Terminated && p1.exit_signal == Some(Signal::RuntimeFailure))
            }),
            (c is BuiltIn && r is Ok && final(self).processes@[pidx as int].status is Runnable
                && !tail) ==> ({
                let p0 = old(self).processes@[pidx as int];
                let p1 = final(self).processes@[pidx as int];
                let dest = c->destination;
                &&& p1.registers@.read_reg(dest) is Literal
                &&& crate::registers::unchanged_except(p0.registers@, p1.registers@, dest)
                &&& p1.stack == p0.stack
                &&& p1.mailbox == p0.mailbox
                &&& p1.location.module@ == p0.location.module@
                &&& p1.location.ip == ip + 1
            }),
    {
        match c {
            crate::bytecode::FnCall::BuiltIn {
                module,
                function,
                arity,
                arguments,
                destination,
            } => {
                // The argument list handed to the runtime: slot for slot
                // term-equal to what the instruction's operands denote.
                let args: Vec<Literal> = {
                    let p = &self.processes[pidx];
                    if !p.registers.reg_in_bounds(destination) {
                        return Err(Fault::RegisterOutOfRange);
                    }
                    match crate::control::resolve_literals(&p.registers, arguments) {
                        Ok(args) => args,
                        Err(f) => {
                            return Err(f);
                        },
                    }
                };
                let mfa = crate::bytecode::MFA {
                    module: module.clone(),
                    function: function.clone(),
                    arity: *arity,
                };
                match rt.execute(&mfa, &args) {
                    Ok(result) => {
                        let p = &mut self.processes[pidx];
                        if !p.registers.reg_in_bounds(destination) {
                            return Err(Fault::RegisterOutOfRange);
                        }
                        let ghost rf0 = p.registers@;
                        p.registers.write(destination, Value::Literal(result));
                        proof {
                            crate::registers::lemma_write_reg(
                                rf0,
                                *destination,
                                p.registers@.read_reg(*destination),
                            );
                        }
                        if !tail {
                            p.location.ip = ip + 1;
                            Ok(())
                        } else {
                            // A built-in in tail position completes the
                            // caller: deliver the result, then return.
                            match p.stack.pop() {
                                Some(ret) => {
                                    p.location = ret;
                                    Ok(())
                                },
                                None => {
                                    self.terminate(pidx, None);
                                    Ok(())
                                },
                            }
                        }
                    },
                    Err(_) => {
                        // The runtime reported a failure: fatal to the
                        // calling process only.
                        self.terminate(pidx, Some(Signal::RuntimeFailure));
                        Ok(())
                    },
                }
            },
            crate::bytecode::FnCall::Local { module, label, arity: _ } => {
                let off = match resolve_jump(prog, module, *label) {
                    Ok(off) => off,
                    Err(f) => {
                        return Err(f);
                    },
                };
                let p = &mut self.processes[pidx];
                if !tail {
                    let ret = Location { module: p.location.module.clone(), ip: ip + 1 };
                    p.stack.push(ret);
                }
                p.location = Location { module: module.clone(), ip: off };
                Ok(())
            },
            crate::bytecode::FnCall::Qualified { module, function, arity } => {
                match resolve_call_mfa(prog, module, function, *arity) {
                    Ok(entry) => {
                        let p = &mut self.processes[pidx];
                        if !tail {
                            let ret = Location { module: p.location.module.clone(), ip: ip + 1 };
                            p.stack.push(ret);
                        }
                        p.location = entry;
                        Ok(())
                    },
                    Err(CallFault::Unknown) => {
                        self.terminate(pidx, Some(Signal::UnknownFunction));
                        Ok(())
                    },
                    Err(CallFault::Engine(f)) => Err(f),
                }
            },
            crate::bytecode::FnCall::ApplyLambda { arity, register } => {
                let lam = {
                    let p = &self.processes[pidx];
                    if !p.registers.reg_in_bounds(register) {
                        return Err(Fault::RegisterOutOfRange);
                    }
                    match p.registers.read(register) {
                        Value::Literal(Literal::Lambda(l)) => l.clone(),
                        _ => {
                            return Err(Fault::BadOperand);
                        },
                    }
                };
                if lam.arity != *arity {
                    return Err(Fault::ClosureArityMismatch);
                }
                let off = match resolve_jump(prog, &lam.module, lam.first_label) {
                    Ok(off) => off,
                    Err(f) => {
                        return Err(f);
                    },
                };
                let p = &mut self.processes[pidx];
                let base = *arity as usize;
                let extent = p.registers.globals.len();
                let esz = lam.environment.len();
                if esz > extent || base > extent - esz {
                    return Err(Fault::RegisterOutOfRange);
                }
                let ghost rf0 = p.registers@;
                let ghost env0 = lam.environment@;
                let module_name = lam.module;
                let mut env = lam.environment;
                for k in 0..esz
                    invariant
                        esz == env0.len(),
                        env@ == env0.skip(k as int),
                        base + esz <= p.registers@.globals.len(),
                        p.registers@.globals.len() == rf0.globals.len(),
                        p.registers@.windows == rf0.windows,
                        forall|j: int|
                            0 <= j < k ==> #[trigger] p.registers@.globals[base + j] == env0[j],
                        forall|j: int|
                            0 <= j < rf0.globals.len() && !(base <= j < base + k)
                                ==> #[trigger] p.registers@.globals[j] == rf0.globals[j],
                        p.pid == old(self).processes@[pidx as int].pid,
                        p.status == old(self).processes@[pidx as int].status,
                        p.stack == old(self).processes@[pidx as int].stack,
                        p.mailbox == old(self).processes@[pidx as int].mailbox,
                        p.location == old(self).processes@[pidx as int].location,
                        p.exit_signal == old(self).processes@[pidx as int].exit_signal,
                    decreases esz - k,
                {
                    let v = env.remove(0);
                    proof {
                        assert(v == env0[k as int]);
                        assert(env@ =~= env0.skip(k + 1));
                    }
                    p.registers.globals[base + k] = v;
                }
                if !tail {
                    let ret = Location { module: p.location.module.clone(), ip: ip + 1 };
                    p.stack.push(ret);
                }
                p.location = Location { module: module_name, ip: off };
                Ok(())
            },
        }
    }

    /// Creates a new process per the spawn descriptor — at a qualified
    /// entry with explicit arguments, or by applying a boxed zero-arity
    /// lambda with its captured environment — and writes the fresh process
    /// identifier into the spawner's `Global(0)`.
    #[verifier::loop_isolation(false)]
    fn do_spawn(&mut self, prog: &Program, pidx: usize, ip: usize, s: &crate::bytecode::Spawn)
        -> (r: Result<(), Fault>)
        requires
            old(self).wf(),
            pidx < old(self).processes@.len(),
            old(self).processes@[pidx as int].status is Runnable,
            old(self).next_pid < u64::MAX,
            ip == old(self).processes@[pidx as int].location.ip,
            ip < usize::MAX,
        ensures
            final(self).wf(),
            final(self).global_extent == old(self).global_extent,
            old(self).next_pid <= final(self).next_pid <= old(self).next_pid + 1,
            old(self).processes@.len() <= final(self).processes@.len() <= old(self).processes@.len() + 1,
            forall|i: int|
                0 <= i < old(self).processes@.len() ==> (#[trigger] final(self).processes@[i]).pid
                    == old(self).processes@[i].pid,
            forall|i: int|
                0 <= i < old(self).processes@.len() && i != pidx && old(self).processes@[i].status is Terminated ==> #[trigger] final(self).processes@[i]
                    == old(self).processes@[i],
            forall|i: int|
                0 <= i < old(self).processes@.len() && i != pidx ==> (#[trigger] final(self).processes@[i]).registers == old(self).processes@[i].registers && final(self).processes@[i].stack == old(self).processes@[i].stack,
            spawn_conforming(*old(self), *prog, pidx as int, *s) ==> r is Ok
                && final(self).processes@[pidx as int].status is Runnable,
            (r is Ok && final(self).processes@[pidx as int].status is Runnable) ==> spawn_outcome(
                *old(self),
                *final(self),
                *prog,
                pidx as int,
                *s,
            ),
    {
        match s {
            crate::bytecode::Spawn::MFA { module, function, arity, arguments } => {
                if arguments.len() != (*arity as usize) {
                    return Err(Fault::BadOperand);
                }
                let args: Vec<Value> = {
                    let p = &self.processes[pidx];
                    let mut args: Vec<Value> = Vec::new();
                    let n = arguments.len();
                    for k in 0..n
                        invariant
                            n == arguments.len(),
                            args.len() == k,
                            forall|i: int|
                                0 <= i < k ==> crate::control::resolvable(
                                    p.registers@,
                                    #[trigger] arguments@[i],
                                ),
                            forall|i: int|
                                0 <= i < k ==> val_eq(
                                    #[trigger] args@[i],
                                    crate::control::resolve_spec(p.registers@, arguments@[i]),
                                ),
                        decreases n - k,
                    {
                        match crate::control::resolve(&p.registers, &arguments[k]) {
                            Ok(v) => args.push(v),
                            Err(f) => {
                                return Err(f);
                            },
                        }
                    }
                    args
                };
                let ghost args0 = args@;
                let entry = match resolve_call_mfa(prog, module, function, *arity) {
                    Ok(e) => e,
                    Err(CallFault::Unknown) => {
                        self.terminate(pidx, Some(Signal::UnknownFunction));
                        return Ok(());
                    },
                    Err(CallFault::Engine(f)) => {
                        return Err(f);
                    },
                };
                let pid = match self.spawn_process(entry, args) {
                    Ok(pid) => pid,
                    Err(f) => {
                        return Err(f);
                    },
                };
                let p = &mut self.processes[pidx];
                if !p.registers.reg_in_bounds(&crate::bytecode::Register::Global(0)) {
                    return Err(Fault::RegisterOutOfRange);
                }
                let ghost rf0 = p.registers@;
                p.registers.write(
                    &crate::bytecode::Register::Global(0),
                    Value::Literal(Literal::Pid(pid)),
                );
                proof {
                    crate::registers::lemma_write_reg(
                        rf0,
                        crate::bytecode::Register::Global(0),
                        Value::Literal(Literal::Pid(pid)),
                    );
                }
                p.location.ip = ip + 1;
                Ok(())
            },
            crate::bytecode::Spawn::Lambda { register } => {
                let lam = {
                    let p = &self.processes[pidx];
                    if !p.registers.reg_in_bounds(register) {
                        return Err(Fault::RegisterOutOfRange);
                    }
                    match p.registers.read(register) {
                        Value::Literal(Literal::Lambda(l)) => l.clone(),
                        _ => {
                            return Err(Fault::BadOperand);
                        },
                    }
                };
                if lam.arity != 0 {
                    return Err(Fault::ClosureArityMismatch);
                }
                let off = match resolve_jump(prog, &lam.module, lam.first_label) {
                    Ok(off) => off,
                    Err(f) => {
                        return Err(f);
                    },
                };
                let entry = Location { module: lam.module.clone(), ip: off };
                let pid = match self.spawn_process(entry, lam.environment) {
                    Ok(pid) => pid,
                    Err(f) => {
                        return Err(f);
                    },
                };
                let p = &mut self.processes[pidx];
                if !p.registers.reg_in_bounds(&crate::bytecode::Register::Global(0)) {
                    return Err(Fault::RegisterOutOfRange);
                }
                let ghost rf0 = p.registers@;
                p.registers.write(
                    &crate::bytecode::Register::Global(0),
                    Value::Literal(Literal::Pid(pid)),
                );
                proof {
                    crate::registers::lemma_write_reg(
                        rf0,
                        crate::bytecode::Register::Global(0),
                        Value::Literal(Literal::Pid(pid)),
                    );
                }
                p.location.ip = ip + 1;
                Ok(())
            },
        }
    }

    /// Fetches, decodes and executes one instruction of the runnable
    /// process in slot `pidx`.
    ///
    /// An engine fault (a compiler/loader contract violation) is returned
    /// without corrupting any process; a process-fatal condition terminates
    /// the stepped process only. Whatever the instruction: no process loses
    /// its identifier, a terminated process stays terminated with its
    /// mailbox untouched, and no other process's registers or stack change.
    /// A `Call` that transfers control pushes exactly one continuation,
    /// where a `TailCall` leaves the continuation stack exactly as it was.
    #[verifier::loop_isolation(false)]
    #[verifier::rlimit(100)]
    /// Executes one instruction of this group (register moves and the identity opcode), per
    /// [`step_claims`]; no other table slot is touched.
    #[verifier::loop_isolation(false)]
    #[verifier::rlimit(100)]
    fn exec_regs(
        &mut self,
        prog: &Program,
        pidx: usize,
        mi: usize,
        ip: usize,
        instr: &Instruction,
    ) -> (r: Result<(), Fault>)
        requires
            old(self).wf(),
            pidx < old(self).processes@.len(),
            old(self).processes@[pidx as int].status is Runnable,
            ({
                ||| instr is Move
            ||| instr is Swap
            ||| instr is Clear
            ||| instr is PidSelf
            ||| instr is Monitor
            ||| instr is Label
            }),
            find_module(prog.modules@, old(self).processes@[pidx as int].location.module@)
                == Some(mi as int),
            mi < prog.modules@.len(),
            ip == old(self).processes@[pidx as int].location.ip,
            ip < usize::MAX,
        ensures
            final(self).wf(),
            final(self).global_extent == old(self).global_extent,
            final(self).next_pid == old(self).next_pid,
            final(self).processes@.len() == old(self).processes@.len(),
            forall|i: int|
                0 <= i < old(self).processes@.len() && i != pidx
                    ==> #[trigger] final(self).processes@[i] == old(self).processes@[i],
            final(self).processes@[pidx as int].pid == old(self).processes@[pidx as int].pid,
            step_claims(
                *old(self),
                *final(self),
                *prog,
                pidx as int,
                prog.modules@[mi as int],
                *instr,
                r is Ok,
            ),
    {
        match instr {
            Instruction::Move(v, target) => {
                let p = &mut self.processes[pidx];
                if !p.registers.reg_in_bounds(target) {
                    return Err(Fault::RegisterOutOfRange);
                }
                let rv = match crate::control::resolve(&p.registers, v) {
                    Ok(rv) => rv,
                    Err(f) => {
                        return Err(f);
                    },
                };
                let ghost rf0 = p.registers@;
                p.registers.write(target, rv);
                proof {
                    crate::registers::lemma_write_reg(rf0, *target, rv);
                }
                p.location.ip = ip + 1;
                Ok(())
            },
            Instruction::Swap(a, b) => {
                let p = &mut self.processes[pidx];
                if !p.registers.reg_in_bounds(a) || !p.registers.reg_in_bounds(b) {
                    return Err(Fault::RegisterOutOfRange);
                }
                p.registers.swap(a, b);
                p.location.ip = ip + 1;
                Ok(())
            },
            Instruction::Clear(target) => {
                let p = &mut self.processes[pidx];
                if !p.registers.reg_in_bounds(target) {
                    return Err(Fault::RegisterOutOfRange);
                }
                p.registers.clear(target);
                p.location.ip = ip + 1;
                Ok(())
            },
            Instruction::PidSelf(target) => {
                let p = &mut self.processes[pidx];
                if !p.registers.reg_in_bounds(target) {
                    return Err(Fault::RegisterOutOfRange);
                }
                let pid = p.pid;
                p.registers.write(target, Value::Literal(Literal::Pid(pid)));
                p.location.ip = ip + 1;
                Ok(())
            },
            Instruction::Monitor => {
                // The notification mechanism lives outside this instruction
                // set; the opcode itself transfers no data.
                let p = &mut self.processes[pidx];
                p.location.ip = ip + 1;
                Ok(())
            },
            Instruction::Label(_) => {
                let p = &mut self.processes[pidx];
                p.location.ip = ip + 1;
                Ok(())
            },
            _ => unreached(),
        }
    }

    /// Executes one instruction of this group (local-window management and closure capture), per
    /// [`step_claims`]; no other table slot is touched.
    #[verifier::loop_isolation(false)]
    #[verifier::rlimit(100)]
    fn exec_windows(
        &mut self,
        prog: &Program,
        pidx: usize,
        mi: usize,
        ip: usize,
        instr: &Instruction,
    ) -> (r: Result<(), Fault>)
        requires
            old(self).wf(),
            pidx < old(self).processes@.len(),
            old(self).processes@[pidx as int].status is Runnable,
            ({
                ||| instr is Allocate
            ||| instr is Deallocate
            ||| instr is ShiftLocals
            ||| instr is RestoreLocals
            ||| instr is MakeLambda
            }),
            find_module(prog.modules@, old(self).processes@[pidx as int].location.module@)
                == Some(mi as int),
            mi < prog.modules@.len(),
            ip == old(self).processes@[pidx as int].location.ip,
            ip < usize::MAX,
        ensures
            final(self).wf(),
            final(self).global_extent == old(self).global_extent,
            final(self).next_pid == old(self).next_pid,
            final(self).processes@.len() == old(self).processes@.len(),
            forall|i: int|
                0 <= i < old(self).processes@.len() && i != pidx
                    ==> #[trigger] final(self).processes@[i] == old(self).processes@[i],
            final(self).processes@[pidx as int].pid == old(self).processes@[pidx as int].pid,
            step_claims(
                *old(self),
                *final(self),
                *prog,
                pidx as int,
                prog.modules@[mi as int],
                *instr,
                r is Ok,
            ),
    {
        match instr {
            Instruction::Allocate { words, keep_registers } => {
                let p = &mut self.processes[pidx];
                p.registers.allocate(*words as usize, *keep_registers as usize);
                p.location.ip = ip + 1;
                Ok(())
            },
            Instruction::Deallocate { words: _ } => {
                let p = &mut self.processes[pidx];
                if p.registers.window_count() == 0 {
                    return Err(Fault::MissingFrame);
                }
                p.registers.pop_window();
                p.location.ip = ip + 1;
                Ok(())
            },
            Instruction::ShiftLocals { amount } => {
                let p = &mut self.processes[pidx];
                if p.registers.window_count() == 0 {
                    return Err(Fault::MissingFrame);
                }
                let wi = p.registers.windows.len() - 1;
                if (*amount as usize) > p.registers.windows[wi].len() {
                    return Err(Fault::MissingFrame);
                }
                p.registers.shift_locals(*amount as usize);
                p.location.ip = ip + 1;
                Ok(())
            },
            Instruction::RestoreLocals => {
                let p = &mut self.processes[pidx];
                if p.registers.window_count() == 0 {
                    return Err(Fault::MissingFrame);
                }
                p.registers.pop_window();
                p.location.ip = ip + 1;
                Ok(())
            },
            Instruction::MakeLambda { first_label, module, arity, environment_size } => {
                let p = &mut self.processes[pidx];
                let extent = p.registers.globals.len();
                if (*environment_size as usize) > extent || extent == 0 {
                    return Err(Fault::RegisterOutOfRange);
                }
                let mut environment: Vec<Value> = Vec::new();
                let esz = *environment_size as usize;
                for k in 0..esz
                    invariant
                        esz <= p.registers.globals.len(),
                        environment.len() == k,
                        forall|j: int|
                            0 <= j < k ==> val_eq(
                                #[trigger] environment@[j],
                                p.registers@.globals[j],
                            ),
                    decreases esz - k,
                {
                    let v = p.registers.globals[k].clone();
                    environment.push(v);
                }
                let lam = crate::bytecode::Lambda {
                    module: module.clone(),
                    first_label: *first_label,
                    arity: *arity,
                    environment,
                };
                let ghost rf0 = p.registers@;
                p.registers.write(
                    &crate::bytecode::Register::Global(0),
                    Value::Literal(Literal::Lambda(lam)),
                );
                proof {
                    crate::registers::lemma_write_reg(
                        rf0,
                        crate::bytecode::Register::Global(0),
                        p.registers@.read_reg(crate::bytecode::Register::Global(0)),
                    );
                }
                p.location.ip = ip + 1;
                Ok(())
            },
            _ => unreached(),
        }
    }

    /// Executes one instruction of this group (heap-term construction and destruction), per
    /// [`step_claims`]; no other table slot is touched.
    #[verifier::loop_isolation(false)]
    #[verifier::rlimit(100)]
    fn exec_terms(
        &mut self,
        prog: &Program,
        pidx: usize,
        mi: usize,
        ip: usize,
        instr: &Instruction,
    ) -> (r: Result<(), Fault>)
        requires
            old(self).wf(),
            pidx < old(self).processes@.len(),
            old(self).processes@[pidx as int].status is Runnable,
            ({
                ||| instr is ConsList
            ||| instr is SplitList
            ||| instr is SplitListHead
            ||| instr is SplitListTail
            ||| instr is MakeTuple
            ||| instr is GetTupleElement
            }),
            find_module(prog.modules@, old(self).processes@[pidx as int].location.module@)
                == Some(mi as int),
            mi < prog.modules@.len(),
            ip == old(self).processes@[pidx as int].location.ip,
            ip < usize::MAX,
        ensures
            final(self).wf(),
            final(self).global_extent == old(self).global_extent,
            final(self).next_pid == old(self).next_pid,
            final(self).processes@.len() == old(self).processes@.len(),
            forall|i: int|
                0 <= i < old(self).processes@.len() && i != pidx
                    ==> #[trigger] final(self).processes@[i] == old(self).processes@[i],
            final(self).processes@[pidx as int].pid == old(self).processes@[pidx as int].pid,
            step_claims(
                *old(self),
                *final(self),
                *prog,
                pidx as int,
                prog.modules@[mi as int],
                *instr,
                r is Ok,
            ),
    {
        match instr {
            Instruction::ConsList { head, tail, target } => {
                let p = &mut self.processes[pidx];
                if !p.registers.reg_in_bounds(target) {
                    return Err(Fault::RegisterOutOfRange);
                }
                match crate::control::cons_list(&mut p.registers, head, tail, target) {
                    Ok(()) => {
                        p.location.ip = ip + 1;
                        Ok(())
                    },
                    Err(f) => Err(f),
                }
            },
            Instruction::SplitList { list, head, tail } => {
                let p = &mut self.processes[pidx];
                if !p.registers.reg_in_bounds(list) || !p.registers.reg_in_bounds(head)
                    || !p.registers.reg_in_bounds(tail) {
                    return Err(Fault::RegisterOutOfRange);
                }
                match crate::control::split_list(&mut p.registers, list, head, tail) {
                    Ok(()) => {
                        p.location.ip = ip + 1;
                        Ok(())
                    },
                    Err(sig) => {
                        self.terminate(pidx, Some(sig));
                        Ok(())
                    },
                }
            },
            Instruction::SplitListHead { list, head } => {
                let p = &mut self.processes[pidx];
                if !p.registers.reg_in_bounds(list) || !p.registers.reg_in_bounds(head) {
                    return Err(Fault::RegisterOutOfRange);
                }
                match crate::control::split_list_head(&mut p.registers, list, head) {
                    Ok(()) => {
                        p.location.ip = ip + 1;
                        Ok(())
                    },
                    Err(sig) => {
                        self.terminate(pidx, Some(sig));
                        Ok(())
                    },
                }
            },
            Instruction::SplitListTail { list, tail } => {
                let p = &mut self.processes[pidx];
                if !p.registers.reg_in_bounds(list) || !p.registers.reg_in_bounds(tail) {
                    return Err(Fault::RegisterOutOfRange);
                }
                match crate::control::split_list_tail(&mut p.registers, list, tail) {
                    Ok(()) => {
                        p.location.ip = ip + 1;
                        Ok(())
                    },
                    Err(sig) => {
                        self.terminate(pidx, Some(sig));
                        Ok(())
                    },
                }
            },
            Instruction::MakeTuple { target, elements } => {
                let p = &mut self.processes[pidx];
                if !p.registers.reg_in_bounds(target) {
                    return Err(Fault::RegisterOutOfRange);
                }
                match crate::control::make_tuple(&mut p.registers, target, elements) {
                    Ok(()) => {
                        p.location.ip = ip + 1;
                        Ok(())
                    },
                    Err(f) => Err(f),
                }
            },
            Instruction::GetTupleElement { tuple, element, target } => {
                let p = &mut self.processes[pidx];
                if !p.registers.reg_in_bounds(tuple) || !p.registers.reg_in_bounds(target) {
                    return Err(Fault::RegisterOutOfRange);
                }
                match crate::control::get_tuple_element(&mut p.registers, tuple, *element, target) {
                    Ok(()) => {
                        p.location.ip = ip + 1;
                        Ok(())
                    },
                    Err(f) => Err(f),
                }
            },
            _ => unreached(),
        }
    }

    /// Executes one instruction of this group (control transfer and the mailbox opcodes), per
    /// [`step_claims`]; no other table slot is touched.
    #[verifier::loop_isolation(false)]
    #[verifier::rlimit(100)]
    fn exec_flow(
        &mut self,
        prog: &Program,
        pidx: usize,
        mi: usize,
        ip: usize,
        instr: &Instruction,
    ) -> (r: Result<(), Fault>)
        requires
            old(self).wf(),
            pidx < old(self).processes@.len(),
            old(self).processes@[pidx as int].status is Runnable,
            ({
                ||| instr is Jump
            ||| instr is Test
            ||| instr is ConditionalJump
            ||| instr is GetMapElements
            ||| instr is Sleep
            ||| instr is PeekMessage
            ||| instr is RemoveMessage
            }),
            find_module(prog.modules@, old(self).processes@[pidx as int].location.module@)
                == Some(mi as int),
            mi < prog.modules@.len(),
            ip == old(self).processes@[pidx as int].location.ip,
            ip < usize::MAX,
        ensures
            final(self).wf(),
            final(self).global_extent == old(self).global_extent,
            final(self).next_pid == old(self).next_pid,
            final(self).processes@.len() == old(self).processes@.len(),
            forall|i: int|
                0 <= i < old(self).processes@.len() && i != pidx
                    ==> #[trigger] final(self).processes@[i] == old(self).processes@[i],
            final(self).processes@[pidx as int].pid == old(self).processes@[pidx as int].pid,
            step_claims(
                *old(self),
                *final(self),
                *prog,
                pidx as int,
                prog.modules@[mi as int],
                *instr,
                r is Ok,
            ),
    {
        match instr {
            Instruction::Jump(l) => {
                let off = match prog.modules[mi].resolve(*l) {
                    Some(off) => off,
                    None => {
                        return Err(Fault::UnresolvedLabel);
                    },
                };
                let p = &mut self.processes[pidx];
                p.location.ip = off;
                Ok(())
            },
            Instruction::Test(l, t) => {
                let off = match prog.modules[mi].resolve(*l) {
                    Some(off) => off,
                    None => {
                        return Err(Fault::UnresolvedLabel);
                    },
                };
                let p = &mut self.processes[pidx];
                match crate::control::eval_test(&p.registers, t) {
                    Ok(true) => {
                        p.location.ip = ip + 1;
                        Ok(())
                    },
                    Ok(false) => {
                        p.location.ip = off;
                        Ok(())
                    },
                    Err(f) => Err(f),
                }
            },
            Instruction::ConditionalJump { register, error, table } => {
                let err_off = match prog.modules[mi].resolve(*error) {
                    Some(off) => off,
                    None => {
                        return Err(Fault::UnresolvedLabel);
                    },
                };
                let p = &mut self.processes[pidx];
                if !p.registers.reg_in_bounds(register) {
                    return Err(Fault::RegisterOutOfRange);
                }
                let hit = match p.registers.read(register) {
                    Value::Literal(lit) => crate::term::find_entry(table, lit),
                    _ => {
                        return Err(Fault::BadOperand);
                    },
                };
                match hit {
                    Some(i) => {
                        proof {
                            crate::term::lemma_find_key_bounds(
                                table@,
                                p.registers@.read_reg(*register)->Literal_0,
                            );
                        }
                        let off = match prog.modules[mi].resolve(table[i].1) {
                            Some(off) => off,
                            None => {
                                return Err(Fault::UnresolvedLabel);
                            },
                        };
                        let p2 = &mut self.processes[pidx];
                        p2.location.ip = off;
                        Ok(())
                    },
                    None => {
                        let p2 = &mut self.processes[pidx];
                        p2.location.ip = err_off;
                        Ok(())
                    },
                }
            },
            Instruction::GetMapElements { label, map, elements } => {
                let off = match prog.modules[mi].resolve(*label) {
                    Some(off) => off,
                    None => {
                        return Err(Fault::UnresolvedLabel);
                    },
                };
                let p = &mut self.processes[pidx];
                if !p.registers.reg_in_bounds(map) {
                    return Err(Fault::RegisterOutOfRange);
                }
                match crate::control::get_map_elements(&mut p.registers, map, elements) {
                    Ok(true) => {
                        p.location.ip = ip + 1;
                        Ok(())
                    },
                    Ok(false) => {
                        p.location.ip = off;
                        Ok(())
                    },
                    Err(f) => Err(f),
                }
            },
            Instruction::Sleep(l) => {
                let off = match prog.modules[mi].resolve(*l) {
                    Some(off) => off,
                    None => {
                        return Err(Fault::UnresolvedLabel);
                    },
                };
                let p = &mut self.processes[pidx];
                p.location.ip = off;
                p.status = Status::Waiting { resume: off };
                Ok(())
            },
            Instruction::PeekMessage { on_mailbox_empty, message } => {
                let off = match prog.modules[mi].resolve(*on_mailbox_empty) {
                    Some(off) => off,
                    None => {
                        return Err(Fault::UnresolvedLabel);
                    },
                };
                let p = &mut self.processes[pidx];
                if !p.registers.reg_in_bounds(message) {
                    return Err(Fault::RegisterOutOfRange);
                }
                match p.mailbox.peek() {
                    Some(m) => {
                        let ghost rf0 = p.registers@;
                        p.registers.write(message, Value::Literal(m));
                        proof {
                            crate::registers::lemma_write_reg(
                                rf0,
                                *message,
                                p.registers@.read_reg(*message),
                            );
                        }
                        p.location.ip = ip + 1;
                        Ok(())
                    },
                    None => {
                        p.location.ip = off;
                        Ok(())
                    },
                }
            },
            Instruction::RemoveMessage => {
                let p = &mut self.processes[pidx];
                if !p.mailbox.has_selection() {
                    return Err(Fault::BadOperand);
                }
                p.mailbox.remove_selected();
                p.location.ip = ip + 1;
                Ok(())
            },
            _ => unreached(),
        }
    }


    pub fn step<R: crate::runtime::Runtime>(
        &mut self,
        prog: &Program,
        rt: &mut R,
        pidx: usize,
    ) -> (r: Result<(), Fault>)
        requires
            old(self).wf(),
            pidx < old(self).processes@.len(),
            old(self).processes@[pidx as int].status is Runnable,
            old(self).next_pid < u64::MAX,
        ensures
            final(self).wf(),
            final(self).global_extent == old(self).global_extent,
            old(self).next_pid <= final(self).next_pid <= old(self).next_pid + 1,
            old(self).processes@.len() <= final(self).processes@.len() <= old(self).processes@.len() + 1,
            forall|i: int|
                0 <= i < old(self).processes@.len() ==> (#[trigger] final(self).processes@[i]).pid
                    == old(self).processes@[i].pid,
            forall|i: int|
                0 <= i < old(self).processes@.len() && i != pidx && old(self).processes@[i].status is Terminated ==> #[trigger] final(self).processes@[i]
                    == old(self).processes@[i],
            forall|i: int|
                0 <= i < old(self).processes@.len() && i != pidx ==> (#[trigger] final(self).processes@[i]).registers == old(self).processes@[i].registers && final(self).processes@[i].stack == old(self).processes@[i].stack,
            ({
                let loc0 = old(self).processes@[pidx as int].location;
                let stack0 = old(self).processes@[pidx as int].stack@;
                let stack1 = final(self).processes@[pidx as int].stack@;
                &&& (instr_at(*prog, loc0) matches Some(Instruction::TailCall(c, _)) && !(c
                    is BuiltIn) && r is Ok && final(self).processes@[pidx as int].status
                    is Runnable) ==> stack1 == stack0
                &&& (instr_at(*prog, loc0) matches Some(Instruction::Call(c, _)) && !(c
                    is BuiltIn) && r is Ok && final(self).processes@[pidx as int].status
                    is Runnable) ==> stack1 == stack0.push(
                    Location { module: loc0.module, ip: (loc0.ip + 1) as usize },
                )
                &&& (instr_at(*prog, loc0) matches Some(i2) ==> step_claims(
                    *old(self),
                    *final(self),
                    *prog,
                    pidx as int,
                    prog.modules@[find_module(prog.modules@, loc0.module@)->Some_0],
                    i2,
                    r is Ok,
                ))
                &&& (r is Ok ==> step_post(*old(self), *final(self), *prog, pidx as int))
            }),
    {
        let mi = match prog.module_index(&self.processes[pidx].location.module) {
            Some(mi) => mi,
            None => {
                return Err(Fault::UnknownModule);
            },
        };
        proof {
            crate::modules::lemma_find_module_bounds(
                prog.modules@,
                self.processes@[pidx as int].location.module@,
            );
        }
        let ip = self.processes[pidx].location.ip;
        if ip >= prog.modules[mi].instructions.len() {
            // Running off the end of the code is normal completion.
            self.terminate(pidx, None);
            return Ok(());
        }
        let instr = &prog.modules[mi].instructions[ip];
        match instr {
            Instruction::Halt => {
                self.terminate(pidx, None);
                Ok(())
            },
            Instruction::Return => {
                let p = &mut self.processes[pidx];
                match p.stack.pop() {
                    Some(ret) => {
                        p.location = ret;
                        Ok(())
                    },
                    None => {
                        self.terminate(pidx, None);
                        Ok(())
                    },
                }
            },
            Instruction::Badmatch => {
                self.terminate(pidx, Some(Signal::Badmatch));
                Ok(())
            },
            Instruction::Call(c, _kind) => self.enter_call(prog, rt, pidx, mi, ip, c, false),
            Instruction::TailCall(c, _kind) => self.enter_call(prog, rt, pidx, mi, ip, c, true),
            Instruction::Spawn(s) => self.do_spawn(prog, pidx, ip, s),
            Instruction::Kill => {
                self.terminate(pidx, None);
                Ok(())
            },
            Instruction::Send { message, process } => {
                let (to, msg) = {
                    let p = &self.processes[pidx];
                    let pv = match crate::control::resolve(&p.registers, process) {
                        Ok(v) => v,
                        Err(f) => {
                            return Err(f);
                        },
                    };
                    let to = match pv {
                        Value::Literal(Literal::Pid(to)) => to,
                        _ => {
                            return Err(Fault::BadOperand);
                        },
                    };
                    proof {
                        let sv = crate::control::resolve_spec(p.registers@, *process);
                        assert(sv matches Value::Literal(_) && crate::term::lit_eq(
                            Literal::Pid(to),
                            sv->Literal_0,
                        ));
                        assert(sv->Literal_0 matches Literal::Pid(_) && sv->Literal_0->Pid_0
                            == to);
                    }
                    let mv = match crate::control::resolve(&p.registers, message) {
                        Ok(v) => v,
                        Err(f) => {
                            return Err(f);
                        },
                    };
                    let msg = match mv {
                        Value::Literal(msg) => msg,
                        _ => {
                            return Err(Fault::BadOperand);
                        },
                    };
                    proof {
                        let smv = crate::control::resolve_spec(p.registers@, *message);
                        assert(smv matches Value::Literal(_) && crate::term::lit_eq(
                            msg,
                            smv->Literal_0,
                        ));
                    }
                    (to, msg)
                };
                self.deliver(to, msg);
                let p = &mut self.processes[pidx];
                p.location.ip = ip + 1;
                Ok(())
            },
            Instruction::Move(..) | Instruction::Swap(..) | Instruction::Clear(..)
            | Instruction::PidSelf(..) | Instruction::Monitor | Instruction::Label(..) => self
                .exec_regs(prog, pidx, mi, ip, instr),
            Instruction::Allocate { .. } | Instruction::Deallocate { .. }
            | Instruction::ShiftLocals { .. } | Instruction::RestoreLocals
            | Instruction::MakeLambda { .. } => self.exec_windows(prog, pidx, mi, ip, instr),
            Instruction::ConsList { .. } | Instruction::SplitList { .. }
            | Instruction::SplitListHead { .. } | Instruction::SplitListTail { .. }
            | Instruction::MakeTuple { .. } | Instruction::GetTupleElement { .. } => self
                .exec_terms(prog, pidx, mi, ip, instr),
            Instruction::Jump(..) | Instruction::Test(..) | Instruction::ConditionalJump { .. }
            | Instruction::GetMapElements { .. } | Instruction::Sleep(..)
            | Instruction::PeekMessage { .. } | Instruction::RemoveMessage => self.exec_flow(
                prog,
                pidx,
                mi,
                ip,
                instr,
            ),
        }
    }
}

impl Scheduler {
    /// Boots a process at an exported function with explicit arguments;
    /// the usual way an embedder starts the system.
    pub fn spawn_mfa(
        &mut self,
        prog: &Program,
        module: &String,
        function: &String,
        arity: Arity,
        args: &Vec<Value>,
    ) -> (r: Result<u64, CallFault>)
        requires
            old(self).wf(),
            old(self).next_pid < u64::MAX,
        ensures
            final(self).wf(),
            final(self).global_extent == old(self).global_extent,
            forall|i: int|
                0 <= i < old(self).processes@.len() ==> (#[trigger] final(self).processes@[i]).pid
                    == old(self).processes@[i].pid,
            r is Ok <==> ({
                let mm = find_module(prog.modules@, module@);
                &&& mm is Some
                &&& prog.modules@[mm->Some_0].spec_export(function@, arity) matches Some(l)
                    && label_offset(prog.modules@[mm->Some_0].labels@, l) is Some
                &&& args@.len() <= old(self).global_extent
            }),
            r is Err ==> *final(self) == *old(self),
            r matches Err(CallFault::Unknown) ==> ({
                let mm = find_module(prog.modules@, module@);
                mm is None || prog.modules@[mm->Some_0].spec_export(function@, arity) is None
            }),
            r matches Err(CallFault::Engine(f)) ==> ({
                let mm = find_module(prog.modules@, module@);
                ||| {
                    &&& f == Fault::UnresolvedLabel
                    &&& mm is Some
                    &&& prog.modules@[mm->Some_0].spec_export(function@, arity) matches Some(l)
                        && label_offset(prog.modules@[mm->Some_0].labels@, l) is None
                }
                ||| (f == Fault::RegisterOutOfRange && args@.len() > old(self).global_extent)
            }),
            r matches Ok(pid) ==> {
                let child = final(self).processes@.last();
                &&& pid == old(self).next_pid
                &&& final(self).processes@.len() == old(self).processes@.len() + 1
                &&& forall|i: int|
                    0 <= i < old(self).processes@.len() ==> #[trigger] final(self).processes@[i]
                        == old(self).processes@[i]
                &&& child.pid == pid
                &&& child.status is Runnable
                &&& child.location.module@ == module@
                &&& ({
                    let mm = find_module(prog.modules@, module@);
                    mm matches Some(mi) && prog.modules@[mi].spec_export(function@, arity)
                        matches Some(l) && label_offset(prog.modules@[mi].labels@, l) == Some(
                        child.location.ip,
                    )
                })
                &&& child.stack@.len() == 0
                &&& child.mailbox.msgs().len() == 0
                &&& child.registers@.windows.len() == 0
                &&& child.registers@.globals.len() == old(self).global_extent
                &&& forall|i: int|
                    0 <= i < args@.len() ==> val_eq(
                        #[trigger] child.registers@.globals[i],
                        args@[i],
                    )
                &&& forall|i: int|
                    args@.len() <= i < old(self).global_extent
                        ==> (#[trigger] child.registers@.globals[i]) is Nil
            },
    {
        let entry = match resolve_call_mfa(prog, module, function, arity) {
            Ok(e) => e,
            Err(cf) => {
                return Err(cf);
            },
        };
        let owned = crate::term::clone_values(args);
        match self.spawn_process(entry, owned) {
            Ok(pid) => Ok(pid),
            Err(f) => Err(CallFault::Engine(f)),
        }
    }

    /// Runs up to `fuel` instruction steps, each on the next runnable
    /// process in round-robin order, stopping early when no process is
    /// runnable. Whatever happens: identifiers are stable, and a process
    /// that was terminated when the run began is never touched again — it
    /// is not scheduled and its mailbox receives nothing.
    #[verifier::loop_isolation(false)]
    pub fn run<R: crate::runtime::Runtime>(
        &mut self,
        prog: &Program,
        rt: &mut R,
        fuel: usize,
    ) -> (r: Result<usize, Fault>)
        requires
            old(self).wf(),
            old(self).next_pid + fuel <= u64::MAX,
        ensures
            final(self).wf(),
            final(self).global_extent == old(self).global_extent,
            old(self).processes@.len() <= final(self).processes@.len(),
            forall|i: int|
                0 <= i < old(self).processes@.len() ==> (#[trigger] final(self).processes@[i]).pid
                    == old(self).processes@[i].pid,
            forall|i: int|
                0 <= i < old(self).processes@.len() && old(self).processes@[i].status
                    is Terminated ==> #[trigger] final(self).processes@[i] == old(
                    self,
                ).processes@[i],
            r matches Ok(steps) ==> steps <= fuel,
            r matches Ok(steps) ==> reachable(*old(self), *final(self), *prog, steps as nat),
            (r matches Ok(steps) && steps < fuel) ==> forall|i: int|
                0 <= i < final(self).processes@.len()
                    ==> !((#[trigger] final(self).processes@[i]).status is Runnable),
    {
        let mut steps: usize = 0;
        while steps < fuel
            invariant
                self.wf(),
                steps <= fuel,
                self.global_extent == old(self).global_extent,
                old(self).processes@.len() <= self.processes@.len(),
                self.next_pid <= old(self).next_pid + steps,
                reachable(*old(self), *self, *prog, steps as nat),
                forall|i: int|
                    0 <= i < old(self).processes@.len() ==> (#[trigger] self.processes@[i]).pid
                        == old(self).processes@[i].pid,
                forall|i: int|
                    0 <= i < old(self).processes@.len() && old(self).processes@[i].status
                        is Terminated ==> #[trigger] self.processes@[i] == old(self).processes@[i],
            decreases fuel - steps,
        {
            let pidx = match self.select_next() {
                Some(pidx) => pidx,
                None => {
                    return Ok(steps);
                },
            };
            let ghost prev = *self;
            match self.step(prog, rt, pidx) {
                Ok(()) => {},
                Err(f) => {
                    return Err(f);
                },
            }
            self.rr = if pidx < usize::MAX {
                pidx + 1
            } else {
                0
            };
            proof {
                assert(0 <= pidx < prev.processes@.len() && prev.processes@[pidx as int].status
                    is Runnable && step_post(prev, *self, *prog, pidx as int));
                assert(dispatched(prev, *self, *prog));
                assert(reachable(*old(self), *self, *prog, (steps + 1) as nat));
            }
            steps = steps + 1;
        }
        Ok(steps)
    }
}

} // verus!
