//! The machine's round-trip laws, stated over the register-file model that
//! the executable operations are specified against.

use vstd::prelude::*;

use crate::bytecode::Literal;
use crate::bytecode::Register;
use crate::bytecode::Value;
use crate::control::cons_head_of;
use crate::control::cons_tail_of;
use crate::control::is_cons_value;
use crate::registers::lemma_write_reg;
use crate::registers::RegisterFileView;

verus! {

/// Register round-trip: writing a value to a register and then reading that
/// register yields exactly the written value, and no other register moved.
pub proof fn lemma_register_round_trip(rf: RegisterFileView, r: Register, v: Value)
    requires
        rf.reg_ok(r),
    ensures
        rf.write_reg(r, v).read_reg(r) == v,
        forall|r2: Register|
            r2 != r && rf.reg_ok(r2) ==> #[trigger] rf.write_reg(r, v).read_reg(r2)
                == rf.read_reg(r2),
{
    lemma_write_reg(rf, r, v);
}

/// Cons/split round-trip: store any non-empty list cell, then write its
/// head and tail into two distinct registers, as `SplitList` does, and the
/// two registers recover exactly the cell's head and tail. The converse
/// half of the law — that splitting a register that does not hold a
/// non-empty list signals failure and writes nothing — is the contract of
/// [`crate::control::split_list`].
pub proof fn lemma_cons_split_round_trip(
    rf: RegisterFileView,
    cell: Value,
    list: Register,
    head: Register,
    tail: Register,
)
    requires
        rf.reg_ok(list),
        rf.reg_ok(head),
        rf.reg_ok(tail),
        head != tail,
        is_cons_value(cell),
    ensures
        ({
            let stored = rf.write_reg(list, cell);
            let split = stored.write_reg(head, cons_head_of(cell)).write_reg(
                tail,
                cons_tail_of(cell),
            );
            &&& stored.read_reg(list) == cell
            &&& split.read_reg(head) == cons_head_of(cell)
            &&& split.read_reg(tail) == cons_tail_of(cell)
        }),
{
    let stored = rf.write_reg(list, cell);
    lemma_write_reg(rf, list, cell);
    let mid = stored.write_reg(head, cons_head_of(cell));
    lemma_write_reg(stored, head, cons_head_of(cell));
    lemma_write_reg(mid, tail, cons_tail_of(cell));
}

/// Tuple round-trip: store a tuple built from `elements`, and copying its
/// slot `i` into a register, as `GetTupleElement` does, recovers
/// `elements[i]` unchanged, for every valid `i`.
pub proof fn lemma_tuple_round_trip(
    rf: RegisterFileView,
    elements: Seq<Value>,
    target: Register,
    out: Register,
    i: int,
)
    requires
        rf.reg_ok(target),
        rf.reg_ok(out),
        0 <= i < elements.len(),
    ensures
        forall|tv: Value|
            (#[trigger] tuple_value_of(tv, elements)) ==> {
                let stored = rf.write_reg(target, tv);
                &&& stored.read_reg(target) == tv
                &&& stored.write_reg(out, elements[i]).read_reg(out) == elements[i]
            },
{
    assert forall|tv: Value| (#[trigger] tuple_value_of(tv, elements)) implies {
        let stored = rf.write_reg(target, tv);
        &&& stored.read_reg(target) == tv
        &&& stored.write_reg(out, elements[i]).read_reg(out) == elements[i]
    } by {
        let stored = rf.write_reg(target, tv);
        lemma_write_reg(rf, target, tv);
        lemma_write_reg(stored, out, elements[i]);
    }
}

/// Whether `v` is a tuple term whose slots are exactly `elements`.
pub open spec fn tuple_value_of(v: Value, elements: Seq<Value>) -> bool {
    v matches Value::Literal(Literal::Tuple(es)) && es@ == elements
}

} // verus!
