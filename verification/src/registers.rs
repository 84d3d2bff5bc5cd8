//! The register file and frame manager of one process.
//!
//! Global registers persist across calls within the process and carry
//! arguments and return values; local registers live in a stack of windows,
//! one window per activation that asked for one. `Allocate` pushes a window,
//! `Deallocate`/`RestoreLocals` pop it, and `ShiftLocals` compacts the
//! current window before a tail call.

use vstd::prelude::*;

use crate::bytecode::Register;
use crate::bytecode::Value;
use crate::term::val_eq;

verus! {

/// The mathematical model of a register file: the global bank and the stack
/// of local windows, the last one current.
#[verifier::ext_equal]
pub ghost struct RegisterFileView {
    pub globals: Seq<Value>,
    pub windows: Seq<Seq<Value>>,
}

impl RegisterFileView {
    /// Whether the register names a slot that exists right now.
    pub open spec fn reg_ok(self, r: Register) -> bool {
        match r {
            Register::Global(i) => i < self.globals.len(),
            Register::Local(i) => self.windows.len() > 0 && i < self.windows.last().len(),
        }
    }

    /// The value a register holds.
    pub open spec fn read_reg(self, r: Register) -> Value
        recommends
            self.reg_ok(r),
    {
        match r {
            Register::Global(i) => self.globals[i as int],
            Register::Local(i) => self.windows.last()[i as int],
        }
    }

    /// The file after one register is overwritten.
    pub open spec fn write_reg(self, r: Register, v: Value) -> RegisterFileView
        recommends
            self.reg_ok(r),
    {
        match r {
            Register::Global(i) => RegisterFileView {
                globals: self.globals.update(i as int, v),
                windows: self.windows,
            },
            Register::Local(i) => RegisterFileView {
                globals: self.globals,
                windows: self.windows.update(
                    self.windows.len() - 1,
                    self.windows.last().update(i as int, v),
                ),
            },
        }
    }
}

/// `post` differs from `pre` in at most the register `r`: the banks keep
/// their shape, and every other register keeps its exact value.
pub open spec fn unchanged_except(
    pre: RegisterFileView,
    post: RegisterFileView,
    r: Register,
) -> bool {
    &&& same_shape(pre, post)
    &&& forall|r2: Register|
        r2 != r && pre.reg_ok(r2) ==> #[trigger] post.read_reg(r2) == pre.read_reg(r2)
}

/// `post` differs from `pre` in at most the registers `a` and `b`.
pub open spec fn unchanged_except_two(
    pre: RegisterFileView,
    post: RegisterFileView,
    a: Register,
    b: Register,
) -> bool {
    &&& same_shape(pre, post)
    &&& forall|r2: Register|
        r2 != a && r2 != b && pre.reg_ok(r2) ==> #[trigger] post.read_reg(r2) == pre.read_reg(r2)
}

/// The two files have the same global extent and the same window stack
/// shape, so they accept the same register names.
pub open spec fn same_shape(pre: RegisterFileView, post: RegisterFileView) -> bool {
    &&& post.globals.len() == pre.globals.len()
    &&& post.windows.len() == pre.windows.len()
    &&& forall|k: int|
        0 <= k < pre.windows.len() ==> (#[trigger] post.windows[k]).len()
            == pre.windows[k].len()
}

/// What one register write does: the written register holds the value, the
/// shape is kept, and every other register is untouched.
pub proof fn lemma_write_reg(pre: RegisterFileView, r: Register, v: Value)
    requires
        pre.reg_ok(r),
    ensures
        pre.write_reg(r, v).read_reg(r) == v,
        unchanged_except(pre, pre.write_reg(r, v), r),
        forall|r2: Register| pre.write_reg(r, v).reg_ok(r2) == #[trigger] pre.reg_ok(r2),
{
    let post = pre.write_reg(r, v);
    match r {
        Register::Global(i) => {
            assert(same_shape(pre, post));
            assert forall|r2: Register| r2 != r && pre.reg_ok(r2) implies #[trigger] post.read_reg(
                r2,
            ) == pre.read_reg(r2) by {
                match r2 {
                    Register::Global(j) => {
                        assert(j != i);
                    },
                    Register::Local(_) => {},
                }
            }
        },
        Register::Local(i) => {
            let wi = pre.windows.len() - 1;
            assert(post.windows[wi].len() == pre.windows[wi].len());
            assert forall|k: int| 0 <= k < pre.windows.len() implies (#[trigger] post.windows[k]).len()
                == pre.windows[k].len() by {}
            assert forall|r2: Register| r2 != r && pre.reg_ok(r2) implies #[trigger] post.read_reg(
                r2,
            ) == pre.read_reg(r2) by {
                match r2 {
                    Register::Global(_) => {},
                    Register::Local(j) => {
                        assert(j != i);
                        assert(post.windows.last() == pre.windows.last().update(i as int, v));
                    },
                }
            }
        },
    }
    assert forall|r2: Register| post.reg_ok(r2) == #[trigger] pre.reg_ok(r2) by {
        assert(same_shape(pre, post));
        match r2 {
            Register::Global(_) => {},
            Register::Local(j) => {
                if pre.windows.len() > 0 {
                    assert(post.windows.last().len() == pre.windows.last().len());
                }
            },
        }
    }
}

/// Per-process storage: a fixed bank of global registers and a stack of
/// local windows.
pub struct RegisterFile {
    pub globals: Vec<Value>,
    pub windows: Vec<Vec<Value>>,
}

impl View for RegisterFile {
    type V = RegisterFileView;

    open spec fn view(&self) -> RegisterFileView {
        RegisterFileView {
            globals: self.globals@,
            windows: self.windows@.map_values(|w: Vec<Value>| w@),
        }
    }
}

/// A vector of `count` cleared registers.
fn nil_slots(count: usize) -> (r: Vec<Value>)
    ensures
        r.len() == count,
        forall|i: int| 0 <= i < count ==> (#[trigger] r[i]) is Nil,
{
    let mut r: Vec<Value> = Vec::new();
    for k in 0..count
        invariant
            r.len() == k,
            forall|i: int| 0 <= i < k ==> (#[trigger] r[i]) is Nil,
        decreases count - k,
    {
        r.push(Value::Nil);
    }
    r
}

impl RegisterFile {
    /// A fresh file: `extent` globals, all `Nil`, and no local window yet.
    pub fn new(extent: usize) -> (r: RegisterFile)
        ensures
            r@.globals.len() == extent,
            forall|i: int| 0 <= i < extent ==> (#[trigger] r@.globals[i]) is Nil,
            r@.windows.len() == 0,
    {
        let r = RegisterFile { globals: nil_slots(extent), windows: Vec::new() };
        proof {
            assert(r@.windows =~= Seq::<Seq<Value>>::empty());
        }
        r
    }

    /// How many local windows are allocated.
    pub fn window_count(&self) -> (n: usize)
        ensures
            n == self@.windows.len(),
    {
        self.windows.len()
    }

    /// Whether `r` names a slot that exists right now; the exec mirror of
    /// [`RegisterFileView::reg_ok`].
    pub fn reg_in_bounds(&self, r: &Register) -> (ok: bool)
        ensures
            ok == self@.reg_ok(*r),
    {
        match r {
            Register::Global(i) => (*i as usize) < self.globals.len(),
            Register::Local(i) => {
                if self.windows.len() == 0 {
                    false
                } else {
                    let wi = self.windows.len() - 1;
                    (*i as usize) < self.windows[wi].len()
                }
            },
        }
    }

    /// Reads a register. The returned reference is exactly the stored value:
    /// writing a register and reading it back yields the written value.
    pub fn read(&self, r: &Register) -> (v: &Value)
        requires
            self@.reg_ok(*r),
        ensures
            *v == self@.read_reg(*r),
    {
        match r {
            Register::Global(i) => &self.globals[*i as usize],
            Register::Local(i) => {
                let wi = self.windows.len() - 1;
                &self.windows[wi][*i as usize]
            },
        }
    }

    /// Overwrites a register with `v`; every other register is untouched.
    pub fn write(&mut self, r: &Register, v: Value)
        requires
            old(self)@.reg_ok(*r),
        ensures
            final(self)@ == old(self)@.write_reg(*r, v),
    {
        match r {
            Register::Global(i) => {
                self.globals[*i as usize] = v;
            },
            Register::Local(i) => {
                let wi = self.windows.len() - 1;
                let w = &mut self.windows[wi];
                w[*i as usize] = v;
            },
        }
        proof {
            assert(self@ =~= old(self)@.write_reg(*r, v));
        }
    }

    /// Resets a register to `Nil`.
    pub fn clear(&mut self, r: &Register)
        requires
            old(self)@.reg_ok(*r),
        ensures
            final(self)@ == old(self)@.write_reg(*r, Value::Nil),
    {
        self.write(r, Value::Nil);
    }

    /// Exchanges the contents of two registers. The values that arrive are
    /// term-equal copies of the values that left; all other registers keep
    /// their exact contents.
    pub fn swap(&mut self, a: &Register, b: &Register)
        requires
            old(self)@.reg_ok(*a),
            old(self)@.reg_ok(*b),
        ensures
            final(self)@.globals.len() == old(self)@.globals.len(),
            final(self)@.windows.len() == old(self)@.windows.len(),
            forall|k: int|
                0 <= k < old(self)@.windows.len() ==> (#[trigger] final(self)@.windows[k]).len()
                    == old(self)@.windows[k].len(),
            val_eq(final(self)@.read_reg(*a), old(self)@.read_reg(*b)),
            val_eq(final(self)@.read_reg(*b), old(self)@.read_reg(*a)),
            forall|r: Register|
                r != *a && r != *b && old(self)@.reg_ok(r) ==> #[trigger] final(self)@.read_reg(r)
                    == old(self)@.read_reg(r),
    {
        if a == b {
            let va = self.read(a).clone();
            self.write(a, va);
            return ;
        }
        let va = self.read(a).clone();
        let vb = self.read(b).clone();
        self.write(a, vb);
        self.write(b, va);
    }

    /// Pushes a fresh local window of `words` cleared slots. The first
    /// `keep` globals are preserved; the rest are reset to `Nil`, since their
    /// contents are unspecified for the caller from here on.
    pub fn allocate(&mut self, words: usize, keep: usize)
        ensures
            final(self)@.globals.len() == old(self)@.globals.len(),
            forall|i: int|
                0 <= i < keep && i < old(self)@.globals.len()
                    ==> #[trigger] final(self)@.globals[i] == old(self)@.globals[i],
            forall|i: int|
                keep <= i < old(self)@.globals.len()
                    ==> (#[trigger] final(self)@.globals[i]) is Nil,
            final(self)@.windows.len() == old(self)@.windows.len() + 1,
            forall|k: int|
                0 <= k < old(self)@.windows.len()
                    ==> #[trigger] final(self)@.windows[k] == old(self)@.windows[k],
            final(self)@.windows.last().len() == words,
            forall|i: int| 0 <= i < words ==> (#[trigger] final(self)@.windows.last()[i]) is Nil,
    {
        let glen = self.globals.len();
        let mut i = keep;
        while i < glen
            invariant
                glen == self.globals.len(),
                keep <= i || i == glen,
                self@.windows == old(self)@.windows,
                self@.globals.len() == old(self)@.globals.len(),
                forall|j: int|
                    0 <= j < keep && j < glen
                        ==> #[trigger] self@.globals[j] == old(self)@.globals[j],
                forall|j: int| keep <= j < i ==> (#[trigger] self@.globals[j]) is Nil,
            decreases glen - i,
        {
            self.globals[i] = Value::Nil;
            i = i + 1;
        }
        let w = nil_slots(words);
        self.windows.push(w);
        proof {
            assert(self@.windows =~= old(self)@.windows.push(self.windows@.last()@));
        }
    }

    /// Pops the current local window, restoring the previous one. Serves
    /// both `Deallocate` and `RestoreLocals`; globals are untouched.
    pub fn pop_window(&mut self)
        requires
            old(self)@.windows.len() > 0,
        ensures
            final(self)@.globals == old(self)@.globals,
            final(self)@.windows == old(self)@.windows.drop_last(),
    {
        self.windows.pop();
        proof {
            assert(self@.windows =~= old(self)@.windows.drop_last());
        }
    }

    /// Shifts the current local window left by `amount`, discarding the
    /// `amount` lowest locals.
    pub fn shift_locals(&mut self, amount: usize)
        requires
            old(self)@.windows.len() > 0,
            amount <= old(self)@.windows.last().len(),
        ensures
            final(self)@.globals == old(self)@.globals,
            final(self)@.windows.len() == old(self)@.windows.len(),
            forall|k: int|
                0 <= k < old(self)@.windows.len() - 1 ==> #[trigger] final(self)@.windows[k]
                    == old(self)@.windows[k],
            final(self)@.windows.last() == old(self)@.windows.last().skip(amount as int),
    {
        let mut w = self.windows.pop().unwrap();
        let ghost w0 = w@;
        for k in 0..amount
            invariant
                amount <= w0.len(),
                w@ == w0.skip(k as int),
            decreases amount - k,
        {
            w.remove(0);
            proof {
                assert(w@ =~= w0.skip(k + 1));
            }
        }
        self.windows.push(w);
        proof {
            assert(self@.windows =~= old(self)@.windows.update(
                old(self)@.windows.len() - 1,
                old(self)@.windows.last().skip(amount as int),
            ));
        }
    }
}

} // verus!
