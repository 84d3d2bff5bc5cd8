//! One process: private registers, continuation stack, mailbox, program
//! location and scheduling state. Processes share nothing but the target
//! mailbox of a `Send`.

use vstd::prelude::*;

use crate::bytecode::Atom;
use crate::bytecode::Signal;
use crate::mailbox::Mailbox;
use crate::registers::RegisterFile;

verus! {

/// The scheduling state machine of a process: `Runnable -> Running ->
/// {Runnable, Waiting, Terminated}`, driven by the scheduler and by message
/// delivery.
#[derive(Clone, Copy, Debug, PartialEq, Eq, Structural)]
pub enum Status {
    /// May be picked by the scheduler.
    Runnable,
    /// Parked on `Sleep` or an empty-mailbox receive; a message arrival
    /// makes it runnable again at instruction offset `resume`.
    Waiting { resume: usize },
    /// Finished, killed or faulted; never scheduled again.
    Terminated,
}

/// A program location: a module and an instruction offset within it.
#[derive(Debug, PartialEq)]
pub struct Location {
    pub module: Atom,
    pub ip: usize,
}

impl Clone for Location {
    /// An exact copy.
    fn clone(&self) -> (r: Self)
        ensures
            r == *self,
    {
        Location { module: self.module.clone(), ip: self.ip }
    }
}

/// An independently scheduled unit of execution.
pub struct Process {
    /// Unique for the lifetime of the engine instance.
    pub pid: u64,
    pub registers: RegisterFile,
    /// The continuation stack: where each pending `Call` returns to.
    /// `Call` pushes here and `Return` pops; a `TailCall` leaves it alone.
    pub stack: Vec<Location>,
    pub mailbox: Mailbox,
    pub status: Status,
    pub location: Location,
    /// The process-fatal signal that ended the process, if one did.
    pub exit_signal: Option<Signal>,
}

impl Process {
    pub open spec fn wf(self) -> bool {
        self.mailbox.wf()
    }

    /// A fresh process with cleared registers, an empty mailbox and an
    /// empty continuation stack, runnable at `entry`.
    pub fn new(pid: u64, global_extent: usize, entry: Location) -> (p: Process)
        ensures
            p.pid == pid,
            p.registers@.globals.len() == global_extent,
            forall|i: int|
                0 <= i < global_extent ==> (#[trigger] p.registers@.globals[i]) is Nil,
            p.registers@.windows.len() == 0,
            p.stack@.len() == 0,
            p.mailbox.msgs().len() == 0,
            p.mailbox.cursor_at() == 0,
            p.status is Runnable,
            p.location == entry,
            p.exit_signal is None,
            p.wf(),
    {
        Process {
            pid,
            registers: RegisterFile::new(global_extent),
            stack: Vec::new(),
            mailbox: Mailbox::new(),
            status: Status::Runnable,
            location: entry,
            exit_signal: None,
        }
    }
}

} // verus!
