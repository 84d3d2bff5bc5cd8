//! Term construction, destruction and pattern-match tests over a register
//! file: the operand-evaluation step shared by every instruction, the heap
//! term builders (`ConsList`, `MakeTuple`, `MakeLambda`), their inverses
//! (`SplitList*`, `GetTupleElement`, `GetMapElements`) and the `Test`
//! predicates.

use vstd::prelude::*;

use crate::bytecode::Fault;
use crate::bytecode::List;
use crate::bytecode::Literal;
use crate::bytecode::Register;
use crate::bytecode::Signal;
use crate::bytecode::Test;
use crate::bytecode::Value;
use crate::registers::lemma_write_reg;
use crate::registers::unchanged_except;
use crate::registers::unchanged_except_two;
use crate::registers::RegisterFile;
use crate::registers::RegisterFileView;
use crate::term::find_key;
use crate::term::lit_eq;
use crate::term::find_entry;
use crate::term::lookup;
use crate::term::val_eq;
use crate::term::value_eq;

verus! {

/// Whether an operand can be evaluated against the file: a register operand
/// must name an existing slot; immediates always evaluate.
pub open spec fn resolvable(rf: RegisterFileView, v: Value) -> bool {
    match v {
        Value::Register(r) => rf.reg_ok(r),
        _ => true,
    }
}

/// The value an operand evaluates to: a register operand reads its slot at
/// use time; an immediate or `Nil` is itself.
pub open spec fn resolve_spec(rf: RegisterFileView, v: Value) -> Value
    recommends
        resolvable(rf, v),
{
    match v {
        Value::Register(r) => rf.read_reg(r),
        _ => v,
    }
}

pub open spec fn all_resolvable(rf: RegisterFileView, vs: Seq<Value>) -> bool {
    forall|i: int| 0 <= i < vs.len() ==> resolvable(rf, #[trigger] vs[i])
}

/// Evaluates an operand, yielding a term-equal copy of what it denotes.
pub fn resolve(rf: &RegisterFile, v: &Value) -> (r: Result<Value, Fault>)
    ensures
        r is Ok <==> resolvable(rf@, *v),
        r matches Ok(rv) ==> val_eq(rv, resolve_spec(rf@, *v)),
        r matches Err(f) ==> f == Fault::RegisterOutOfRange,
{
    match v {
        Value::Register(reg) => {
            if rf.reg_in_bounds(reg) {
                Ok(rf.read(reg).clone())
            } else {
                Err(Fault::RegisterOutOfRange)
            }
        },
        _ => Ok(v.clone()),
    }
}

/// Evaluates an operand in place: the returned reference is exactly the
/// value the operand denotes right now.
pub fn resolve_ref<'a>(rf: &'a RegisterFile, v: &'a Value) -> (r: Result<&'a Value, Fault>)
    ensures
        r is Ok <==> resolvable(rf@, *v),
        r matches Ok(rv) ==> *rv == resolve_spec(rf@, *v),
        r matches Err(f) ==> f == Fault::RegisterOutOfRange,
{
    match v {
        Value::Register(reg) => {
            if rf.reg_in_bounds(reg) {
                Ok(rf.read(reg))
            } else {
                Err(Fault::RegisterOutOfRange)
            }
        },
        _ => Ok(v),
    }
}


/// Every operand of a built-in call evaluates to a literal.
pub open spec fn all_literals(rf: RegisterFileView, vs: Seq<Value>) -> bool {
    forall|i: int|
        0 <= i < vs.len() ==> resolvable(rf, #[trigger] vs[i]) && resolve_spec(rf, vs[i])
            is Literal
}

/// Evaluates a built-in call's operands to the literal argument list that
/// is handed to the runtime: slot `i` of the result is term-equal to what
/// operand `i` denotes. An operand that does not denote a literal is a
/// fault and nothing is handed over.
pub fn resolve_literals(rf: &RegisterFile, arguments: &Vec<Value>) -> (r: Result<
    Vec<Literal>,
    Fault,
>)
    ensures
        r is Ok <==> all_literals(rf@, arguments@),
        r matches Ok(out) ==> out.len() == arguments.len() && forall|i: int|
            0 <= i < arguments@.len() ==> lit_eq(
                #[trigger] out[i],
                resolve_spec(rf@, arguments@[i])->Literal_0,
            ),
        r matches Err(f) ==> f == Fault::RegisterOutOfRange || f == Fault::BadOperand,
{
    let mut out: Vec<Literal> = Vec::new();
    let n = arguments.len();
    for k in 0..n
        invariant
            n == arguments.len(),
            out.len() == k,
            forall|i: int|
                0 <= i < k ==> resolvable(rf@, #[trigger] arguments@[i]) && resolve_spec(
                    rf@,
                    arguments@[i],
                ) is Literal,
            forall|i: int|
                0 <= i < k ==> lit_eq(#[trigger] out[i], resolve_spec(rf@, arguments@[i])->Literal_0),
        decreases n - k,
    {
        let rv = match resolve(rf, &arguments[k]) {
            Ok(v) => v,
            Err(f) => {
                return Err(f);
            },
        };
        match rv {
            Value::Literal(l) => {
                proof {
                    assert(resolve_spec(rf@, arguments@[k as int]) is Literal && lit_eq(
                        l,
                        resolve_spec(rf@, arguments@[k as int])->Literal_0,
                    ));
                }
                out.push(l);
            },
            _ => {
                proof {
                    assert(!(resolve_spec(rf@, arguments@[k as int]) is Literal));
                }
                return Err(Fault::BadOperand);
            },
        }
    }
    Ok(out)
}

/// Whether the value is a non-empty list term.
pub open spec fn is_cons_value(v: Value) -> bool {
    v matches Value::Literal(Literal::List(List::Cons(_, _)))
}

pub open spec fn cons_head_of(v: Value) -> Value
    recommends
        is_cons_value(v),
{
    match v {
        Value::Literal(Literal::List(List::Cons(h, _))) => *h,
        _ => arbitrary(),
    }
}

pub open spec fn cons_tail_of(v: Value) -> Value
    recommends
        is_cons_value(v),
{
    match v {
        Value::Literal(Literal::List(List::Cons(_, t))) => *t,
        _ => arbitrary(),
    }
}

/// Builds the cons of the two evaluated operands and writes it to `target`:
/// the target then holds a non-empty list whose head and tail are the
/// evaluated operands.
pub fn cons_list(rf: &mut RegisterFile, head: &Value, tail: &Value, target: &Register) -> (r:
    Result<(), Fault>)
    requires
        old(rf)@.reg_ok(*target),
    ensures
        r is Ok <==> resolvable(old(rf)@, *head) && resolvable(old(rf)@, *tail),
        r matches Err(f) ==> f == Fault::RegisterOutOfRange && final(rf)@ == old(rf)@,
        r is Ok ==> {
            &&& is_cons_value(final(rf)@.read_reg(*target))
            &&& val_eq(
                cons_head_of(final(rf)@.read_reg(*target)),
                resolve_spec(old(rf)@, *head),
            )
            &&& val_eq(
                cons_tail_of(final(rf)@.read_reg(*target)),
                resolve_spec(old(rf)@, *tail),
            )
            &&& unchanged_except(old(rf)@, final(rf)@, *target)
        },
{
    let h = match resolve(rf, head) {
        Ok(h) => h,
        Err(f) => {
            return Err(f);
        },
    };
    let t = match resolve(rf, tail) {
        Ok(t) => t,
        Err(f) => {
            return Err(f);
        },
    };
    let cell = Value::Literal(Literal::List(List::Cons(Box::new(h), Box::new(t))));
    rf.write(target, cell);
    proof {
        lemma_write_reg(old(rf)@, *target, final(rf)@.read_reg(*target));
        lemma_write_reg(old(rf)@, *target, cell);
    }
    Ok(())
}

/// Destructures the non-empty list in `list` into `head` and `tail`. A
/// register that does not hold a non-empty list signals `Badmatch` and
/// writes nothing, never silently returning garbage. When the two target
/// registers coincide the tail, written last, is what remains.
pub fn split_list(rf: &mut RegisterFile, list: &Register, head: &Register, tail: &Register) -> (r:
    Result<(), Signal>)
    requires
        old(rf)@.reg_ok(*list),
        old(rf)@.reg_ok(*head),
        old(rf)@.reg_ok(*tail),
    ensures
        r is Ok <==> is_cons_value(old(rf)@.read_reg(*list)),
        r matches Err(s) ==> s == Signal::Badmatch && final(rf)@ == old(rf)@,
        r is Ok ==> {
            &&& val_eq(final(rf)@.read_reg(*tail), cons_tail_of(old(rf)@.read_reg(*list)))
            &&& *head != *tail ==> val_eq(
                final(rf)@.read_reg(*head),
                cons_head_of(old(rf)@.read_reg(*list)),
            )
            &&& unchanged_except_two(old(rf)@, final(rf)@, *head, *tail)
        },
{
    let (hc, tc) = match rf.read(list) {
        Value::Literal(Literal::List(List::Cons(h, t))) => ((**h).clone(), (**t).clone()),
        _ => {
            return Err(Signal::Badmatch);
        },
    };
    let ghost pre = rf@;
    rf.write(head, hc);
    proof {
        lemma_write_reg(pre, *head, hc);
    }
    rf.write(tail, tc);
    proof {
        lemma_write_reg(pre.write_reg(*head, hc), *tail, tc);
    }
    Ok(())
}

/// As `split_list`, but recovering only the head.
pub fn split_list_head(rf: &mut RegisterFile, list: &Register, head: &Register) -> (r: Result<
    (),
    Signal,
>)
    requires
        old(rf)@.reg_ok(*list),
        old(rf)@.reg_ok(*head),
    ensures
        r is Ok <==> is_cons_value(old(rf)@.read_reg(*list)),
        r matches Err(s) ==> s == Signal::Badmatch && final(rf)@ == old(rf)@,
        r is Ok ==> {
            &&& val_eq(final(rf)@.read_reg(*head), cons_head_of(old(rf)@.read_reg(*list)))
            &&& unchanged_except(old(rf)@, final(rf)@, *head)
        },
{
    let hc = match rf.read(list) {
        Value::Literal(Literal::List(List::Cons(h, _))) => (**h).clone(),
        _ => {
            return Err(Signal::Badmatch);
        },
    };
    let ghost pre = rf@;
    rf.write(head, hc);
    proof {
        lemma_write_reg(pre, *head, hc);
    }
    Ok(())
}

/// As `split_list`, but recovering only the tail.
pub fn split_list_tail(rf: &mut RegisterFile, list: &Register, tail: &Register) -> (r: Result<
    (),
    Signal,
>)
    requires
        old(rf)@.reg_ok(*list),
        old(rf)@.reg_ok(*tail),
    ensures
        r is Ok <==> is_cons_value(old(rf)@.read_reg(*list)),
        r matches Err(s) ==> s == Signal::Badmatch && final(rf)@ == old(rf)@,
        r is Ok ==> {
            &&& val_eq(final(rf)@.read_reg(*tail), cons_tail_of(old(rf)@.read_reg(*list)))
            &&& unchanged_except(old(rf)@, final(rf)@, *tail)
        },
{
    let tc = match rf.read(list) {
        Value::Literal(Literal::List(List::Cons(_, t))) => (**t).clone(),
        _ => {
            return Err(Signal::Badmatch);
        },
    };
    let ghost pre = rf@;
    rf.write(tail, tc);
    proof {
        lemma_write_reg(pre, *tail, tc);
    }
    Ok(())
}

/// Builds a tuple from the evaluated elements and writes it to `target`:
/// the target then holds a tuple of the same size whose slot `i` is the
/// evaluated `elements[i]`.
pub fn make_tuple(rf: &mut RegisterFile, target: &Register, elements: &Vec<Value>) -> (r: Result<
    (),
    Fault,
>)
    requires
        old(rf)@.reg_ok(*target),
    ensures
        r is Ok <==> all_resolvable(old(rf)@, elements@),
        r matches Err(f) ==> f == Fault::RegisterOutOfRange && final(rf)@ == old(rf)@,
        r is Ok ==> {
            &&& final(rf)@.read_reg(*target) matches Value::Literal(Literal::Tuple(es))
                && es.len() == elements@.len() && (forall|i: int|
                0 <= i < elements@.len() ==> val_eq(
                    #[trigger] es[i],
                    resolve_spec(old(rf)@, elements@[i]),
                ))
            &&& unchanged_except(old(rf)@, final(rf)@, *target)
        },
{
    let mut es: Vec<Value> = Vec::new();
    let n = elements.len();
    for k in 0..n
        invariant
            n == elements.len(),
            es.len() == k,
            forall|i: int| 0 <= i < k ==> resolvable(rf@, #[trigger] elements@[i]),
            forall|i: int| 0 <= i < k ==> val_eq(#[trigger] es[i], resolve_spec(rf@, elements@[i])),
        decreases n - k,
    {
        match resolve(rf, &elements[k]) {
            Ok(v) => es.push(v),
            Err(f) => {
                return Err(f);
            },
        }
    }
    let tuple = Value::Literal(Literal::Tuple(es));
    rf.write(target, tuple);
    proof {
        lemma_write_reg(old(rf)@, *target, tuple);
    }
    Ok(())
}

/// Copies slot `element` of the tuple in `tuple` into `target`. A register
/// not holding a tuple, or an index beyond the tuple's size, is a fault and
/// writes nothing.
pub fn get_tuple_element(rf: &mut RegisterFile, tuple: &Register, element: u32, target: &Register)
    -> (r: Result<(), Fault>)
    requires
        old(rf)@.reg_ok(*tuple),
        old(rf)@.reg_ok(*target),
    ensures
        r is Ok <==> (old(rf)@.read_reg(*tuple) matches Value::Literal(Literal::Tuple(es))
            && element < es.len()),
        r is Err ==> final(rf)@ == old(rf)@,
        !(old(rf)@.read_reg(*tuple) matches Value::Literal(Literal::Tuple(_))) ==> r == Err::<
            (),
            Fault,
        >(Fault::BadOperand),
        (old(rf)@.read_reg(*tuple) matches Value::Literal(Literal::Tuple(es)) && element
            >= es.len()) ==> r == Err::<(), Fault>(Fault::TupleIndexOutOfRange),
        r is Ok ==> {
            &&& old(rf)@.read_reg(*tuple) matches Value::Literal(Literal::Tuple(es)) && val_eq(
                final(rf)@.read_reg(*target),
                es[element as int],
            )
            &&& unchanged_except(old(rf)@, final(rf)@, *target)
        },
{
    let ec = match rf.read(tuple) {
        Value::Literal(Literal::Tuple(es)) => {
            if (element as usize) < es.len() {
                es[element as usize].clone()
            } else {
                return Err(Fault::TupleIndexOutOfRange);
            }
        },
        _ => {
            return Err(Fault::BadOperand);
        },
    };
    let ghost pre = rf@;
    rf.write(target, ec);
    proof {
        lemma_write_reg(pre, *target, ec);
    }
    Ok(())
}

/// Every requested key is present in the map's entries.
pub open spec fn has_all_keys(entries: Seq<(Literal, Value)>, elems: Seq<(Literal, Register)>)
    -> bool {
    forall|i: int| 0 <= i < elems.len() ==> find_key(entries, (#[trigger] elems[i]).0) is Some
}

/// All requested target registers exist.
pub open spec fn targets_ok(rf: RegisterFileView, elems: Seq<(Literal, Register)>) -> bool {
    forall|i: int| 0 <= i < elems.len() ==> rf.reg_ok((#[trigger] elems[i]).1)
}

/// No later element writes to the same register, so element `i`'s write is
/// the one that remains.
pub open spec fn last_write_for(elems: Seq<(Literal, Register)>, i: int) -> bool {
    forall|j: int| i < j < elems.len() ==> (#[trigger] elems[j]).1 != elems[i].1
}

/// Looks every requested key up in the map held in `map` and copies the
/// values into the requested registers, all or nothing: with any key absent
/// (in particular when the register does not hold a map at all) no register
/// is written and `false` asks the caller to jump to the miss label; with
/// every key present every requested register is written and `true` lets
/// control fall through.
pub fn get_map_elements(rf: &mut RegisterFile, map: &Register, elems: &Vec<(Literal, Register)>)
    -> (r: Result<bool, Fault>)
    requires
        old(rf)@.reg_ok(*map),
    ensures
        r is Err <==> !targets_ok(old(rf)@, elems@),
        r matches Err(f) ==> f == Fault::RegisterOutOfRange && final(rf)@ == old(rf)@,
        r == Ok::<bool, Fault>(true) <==> targets_ok(old(rf)@, elems@) && (old(rf)@.read_reg(*map)
            matches Value::Literal(Literal::Mapping(entries)) && has_all_keys(entries@, elems@)),
        r == Ok::<bool, Fault>(false) ==> final(rf)@ == old(rf)@,
        r == Ok::<bool, Fault>(true) ==> {
            &&& old(rf)@.read_reg(*map) matches Value::Literal(Literal::Mapping(entries)) && (
            forall|i: int|
                0 <= i < elems@.len() && last_write_for(elems@, i) ==> val_eq(
                    final(rf)@.read_reg((#[trigger] elems@[i]).1),
                    lookup(entries@, elems@[i].0)->Some_0,
                ))
            &&& crate::registers::same_shape(old(rf)@, final(rf)@)
            &&& forall|r2: Register|
                old(rf)@.reg_ok(r2) && (forall|i: int|
                    0 <= i < elems@.len() ==> (#[trigger] elems@[i]).1 != r2)
                    ==> #[trigger] final(rf)@.read_reg(r2) == old(rf)@.read_reg(r2)
        },
{
    let n = elems.len();
    for k in 0..n
        invariant
            n == elems.len(),
            forall|i: int| 0 <= i < k ==> rf@.reg_ok((#[trigger] elems@[i]).1),
        decreases n - k,
    {
        if !rf.reg_in_bounds(&elems[k].1) {
            return Err(Fault::RegisterOutOfRange);
        }
    }
    let ghost pre = rf@;
    let mut vals: Vec<Value> = Vec::new();
    {
        let mv = rf.read(map);
        let entries = match mv {
            Value::Literal(Literal::Mapping(entries)) => entries,
            _ => {
                return Ok(false);
            },
        };
        for k in 0..n
            invariant
                n == elems.len(),
                vals.len() == k,
                targets_ok(pre, elems@),
                pre == rf@,
                entries == pre.read_reg(*map)->Literal_0->Mapping_0,
                pre.read_reg(*map) matches Value::Literal(Literal::Mapping(_)),
                forall|i: int| 0 <= i < k ==> find_key(entries@, (#[trigger] elems@[i]).0) is Some,
                forall|i: int|
                    0 <= i < k ==> val_eq(
                        #[trigger] vals@[i],
                        lookup(entries@, elems@[i].0)->Some_0,
                    ),
            decreases n - k,
        {
            match find_entry(entries, &elems[k].0) {
                Some(idx) => {
                    proof {
                        crate::term::lemma_find_key_bounds(entries@, elems@[k as int].0);
                    }
                    let v = entries[idx].1.clone();
                    vals.push(v);
                },
                None => {
                    return Ok(false);
                },
            }
        }
    }
    let ghost entries0 = pre.read_reg(*map)->Literal_0->Mapping_0;
    let ghost vals0 = vals@;
    let mut k: usize = 0;
    while k < n
        invariant
            n == elems.len(),
            k <= n,
            vals.len() == n - k,
            targets_ok(pre, elems@),
            pre.read_reg(*map) matches Value::Literal(Literal::Mapping(_)),
            entries0 == pre.read_reg(*map)->Literal_0->Mapping_0,
            has_all_keys(entries0@, elems@),
            vals0.len() == n,
            vals@ == vals0.skip(k as int),
            forall|i: int|
                0 <= i < n ==> val_eq(#[trigger] vals0[i], lookup(entries0@, elems@[i].0)->Some_0),
            crate::registers::same_shape(pre, rf@),
            forall|r2: Register| rf@.reg_ok(r2) == #[trigger] pre.reg_ok(r2),
            forall|i: int|
                0 <= i < k && last_write_for(elems@.take(k as int), i) ==> val_eq(
                    rf@.read_reg((#[trigger] elems@[i]).1),
                    lookup(entries0@, elems@[i].0)->Some_0,
                ),
            forall|r2: Register|
                pre.reg_ok(r2) && (forall|i: int|
                    0 <= i < k ==> (#[trigger] elems@[i]).1 != r2) ==> #[trigger] rf@.read_reg(r2)
                    == pre.read_reg(r2),
        decreases n - k,
    {
        let ghost mid = rf@;
        let v = vals.remove(0);
        proof {
            assert(v == vals0[k as int]);
            assert(vals@ =~= vals0.skip(k as int + 1));
        }
        rf.write(&elems[k].1, v);
        proof {
            lemma_write_reg(mid, elems@[k as int].1, v);
            assert(val_eq(v, lookup(entries0@, elems@[k as int].0)->Some_0));
            assert forall|i: int|
                0 <= i < k + 1 && last_write_for(elems@.take(k + 1 as int), i) implies val_eq(
                rf@.read_reg((#[trigger] elems@[i]).1),
                lookup(entries0@, elems@[i].0)->Some_0,
            ) by {
                if i < k {
                    assert(elems@.take(k + 1 as int)[k as int] == elems@[k as int]);
                    assert(elems@[k as int].1 != elems@[i].1);
                    assert forall|j: int| i < j < k implies (#[trigger] elems@.take(k as int)[j]).1
                        != elems@[i].1 by {
                        assert(elems@.take(k + 1 as int)[j] == elems@[j]);
                    }
                    assert(last_write_for(elems@.take(k as int), i));
                } else {
                    assert(rf@.read_reg(elems@[k as int].1) == v);
                }
            }
        }
        k = k + 1;
    }
    proof {
        assert forall|i: int| 0 <= i < n && last_write_for(elems@, i) implies val_eq(
            rf@.read_reg((#[trigger] elems@[i]).1),
            lookup(entries0@, elems@[i].0)->Some_0,
        ) by {
            assert(elems@.take(n as int) =~= elems@);
            assert(last_write_for(elems@.take(n as int), i));
        }
    }
    Ok(true)
}

/// Whether the value is the empty list: the absence value `Nil`, or the
/// empty list term.
pub open spec fn is_nil_value(v: Value) -> bool {
    ||| v is Nil
    ||| v matches Value::Literal(Literal::List(List::Nil))
}

/// Whether a test's operands are of the kinds the predicate needs, so that
/// evaluating it is meaningful: register operands must exist, and an
/// arithmetic ordering test needs two integer terms.
pub open spec fn test_defined(rf: RegisterFileView, t: Test) -> bool {
    match t {
        Test::Equals(a, b) => resolvable(rf, a) && resolvable(rf, b),
        Test::NotEquals(a, b) => resolvable(rf, a) && resolvable(rf, b),
        Test::IsFunctionWithArity { fun, arity: _ } => rf.reg_ok(fun),
        Test::IsGreaterOrEqualThan(a, b) => {
            &&& resolvable(rf, a) && resolvable(rf, b)
            &&& resolve_spec(rf, a) matches Value::Literal(Literal::Integer(_))
            &&& resolve_spec(rf, b) matches Value::Literal(Literal::Integer(_))
        },
        Test::IsNil(v) => resolvable(rf, v),
        Test::IsNonEmptyList(v) => resolvable(rf, v),
        Test::IsTaggedTuple { value, size: _, atom: _ } => resolvable(rf, value),
        Test::IsTuple { register, size: _ } => rf.reg_ok(register),
        Test::IsMap { register } => rf.reg_ok(register),
    }
}

/// What each test means, over the evaluated operands.
pub open spec fn test_spec(rf: RegisterFileView, t: Test) -> bool
    recommends
        test_defined(rf, t),
{
    match t {
        Test::Equals(a, b) => val_eq(resolve_spec(rf, a), resolve_spec(rf, b)),
        Test::NotEquals(a, b) => !val_eq(resolve_spec(rf, a), resolve_spec(rf, b)),
        Test::IsFunctionWithArity { fun, arity } => rf.read_reg(fun) matches Value::Literal(
            Literal::Lambda(l),
        ) && l.arity == arity,
        Test::IsGreaterOrEqualThan(a, b) => resolve_spec(rf, a)->Literal_0->Integer_0
            >= resolve_spec(rf, b)->Literal_0->Integer_0,
        Test::IsNil(v) => is_nil_value(resolve_spec(rf, v)),
        Test::IsNonEmptyList(v) => is_cons_value(resolve_spec(rf, v)),
        Test::IsTaggedTuple { value, size, atom } => {
            let rv = resolve_spec(rf, value);
            &&& rv matches Value::Literal(Literal::Tuple(_))
            &&& rv->Literal_0->Tuple_0.len() == size
            &&& rv->Literal_0->Tuple_0.len() > 0
            &&& rv->Literal_0->Tuple_0[0] matches Value::Literal(Literal::Atom(_))
            &&& rv->Literal_0->Tuple_0[0]->Literal_0->Atom_0@ == atom@
        },
        Test::IsTuple { register, size } => rf.read_reg(register) matches Value::Literal(
            Literal::Tuple(es),
        ) && (size matches Some(s) ==> es.len() == s),
        Test::IsMap { register } => rf.read_reg(register) matches Value::Literal(
            Literal::Mapping(_),
        ),
    }
}

/// Evaluates a test predicate without side effects; undefined operands are
/// a fault, not a silent answer.
pub fn eval_test(rf: &RegisterFile, t: &Test) -> (r: Result<bool, Fault>)
    ensures
        r is Ok <==> test_defined(rf@, *t),
        r matches Ok(b) ==> b == test_spec(rf@, *t),
{
    match t {
        Test::Equals(a, b) => {
            let ra = match resolve_ref(rf, a) {
                Ok(v) => v,
                Err(f) => {
                    return Err(f);
                },
            };
            let rb = match resolve_ref(rf, b) {
                Ok(v) => v,
                Err(f) => {
                    return Err(f);
                },
            };
            Ok(value_eq(ra, rb))
        },
        Test::NotEquals(a, b) => {
            let ra = match resolve_ref(rf, a) {
                Ok(v) => v,
                Err(f) => {
                    return Err(f);
                },
            };
            let rb = match resolve_ref(rf, b) {
                Ok(v) => v,
                Err(f) => {
                    return Err(f);
                },
            };
            Ok(!value_eq(ra, rb))
        },
        Test::IsFunctionWithArity { fun, arity } => {
            if !rf.reg_in_bounds(fun) {
                return Err(Fault::RegisterOutOfRange);
            }
            match rf.read(fun) {
                Value::Literal(Literal::Lambda(l)) => Ok(l.arity == *arity),
                _ => Ok(false),
            }
        },
        Test::IsGreaterOrEqualThan(a, b) => {
            let ra = match resolve_ref(rf, a) {
                Ok(v) => v,
                Err(f) => {
                    return Err(f);
                },
            };
            let rb = match resolve_ref(rf, b) {
                Ok(v) => v,
                Err(f) => {
                    return Err(f);
                },
            };
            match (ra, rb) {
                (
                    Value::Literal(Literal::Integer(x)),
                    Value::Literal(Literal::Integer(y)),
                ) => Ok(x >= y),
                _ => Err(Fault::BadOperand),
            }
        },
        Test::IsNil(v) => {
            let rv = match resolve_ref(rf, v) {
                Ok(v) => v,
                Err(f) => {
                    return Err(f);
                },
            };
            match rv {
                Value::Nil => Ok(true),
                Value::Literal(Literal::List(List::Nil)) => Ok(true),
                _ => Ok(false),
            }
        },
        Test::IsNonEmptyList(v) => {
            let rv = match resolve_ref(rf, v) {
                Ok(v) => v,
                Err(f) => {
                    return Err(f);
                },
            };
            match rv {
                Value::Literal(Literal::List(List::Cons(_, _))) => Ok(true),
                _ => Ok(false),
            }
        },
        Test::IsTaggedTuple { value, size, atom } => {
            let rv = match resolve_ref(rf, value) {
                Ok(v) => v,
                Err(f) => {
                    return Err(f);
                },
            };
            match rv {
                Value::Literal(Literal::Tuple(es)) => {
                    if es.len() != (*size as usize) || es.len() == 0 {
                        Ok(false)
                    } else {
                        match &es[0] {
                            Value::Literal(Literal::Atom(a)) => Ok(*a == *atom),
                            _ => Ok(false),
                        }
                    }
                },
                _ => Ok(false),
            }
        },
        Test::IsTuple { register, size } => {
            if !rf.reg_in_bounds(register) {
                return Err(Fault::RegisterOutOfRange);
            }
            match rf.read(register) {
                Value::Literal(Literal::Tuple(es)) => match size {
                    Some(s) => Ok(es.len() == (*s as usize)),
                    None => Ok(true),
                },
                _ => Ok(false),
            }
        },
        Test::IsMap { register } => {
            if !rf.reg_in_bounds(register) {
                return Err(Fault::RegisterOutOfRange);
            }
            match rf.read(register) {
                Value::Literal(Literal::Mapping(_)) => Ok(true),
                _ => Ok(false),
            }
        },
    }
}

} // verus!
