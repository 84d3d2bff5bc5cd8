//! Term equality and term lookup.
//!
//! The engine decides equality of terms in pattern-match tests, in jump-table
//! dispatch and in map-key lookup. [`lit_eq`] is the specification of that
//! relation: structural equality of the term trees, with atoms equal exactly
//! when their characters are equal. Maps compare as their entry sequences.

use vstd::prelude::*;

use crate::bytecode::Label;
use crate::bytecode::Lambda;
use crate::bytecode::List;
use crate::bytecode::Literal;
use crate::bytecode::Value;

verus! {

broadcast use vstd::std_specs::vec::axiom_vec_index_decreases;

/// Term equality of two literals.
pub open spec fn lit_eq(a: Literal, b: Literal) -> bool
    decreases a,
{
    match (a, b) {
        (Literal::Atom(x), Literal::Atom(y)) => x@ == y@,
        (Literal::Integer(x), Literal::Integer(y)) => x == y,
        (Literal::Float(x), Literal::Float(y)) => x == y,
        (Literal::Binary(x), Literal::Binary(y)) => x@ == y@,
        (Literal::List(x), Literal::List(y)) => list_eq(x, y),
        (Literal::Tuple(x), Literal::Tuple(y)) => {
            &&& x.len() == y.len()
            &&& forall|i: int| 0 <= i < x.len() ==> val_eq(#[trigger] x[i], y[i])
        },
        (Literal::Mapping(x), Literal::Mapping(y)) => {
            &&& x.len() == y.len()
            &&& forall|i: int| 0 <= i < x.len() ==> lit_eq(#[trigger] x[i].0, y[i].0)
            &&& forall|i: int| 0 <= i < x.len() ==> val_eq(#[trigger] x[i].1, y[i].1)
        },
        (Literal::Pid(x), Literal::Pid(y)) => x == y,
        (Literal::Lambda(x), Literal::Lambda(y)) => {
            &&& x.module@ == y.module@
            &&& x.first_label == y.first_label
            &&& x.arity == y.arity
            &&& x.environment.len() == y.environment.len()
            &&& forall|i: int|
                0 <= i < x.environment.len() ==> val_eq(
                    #[trigger] x.environment[i],
                    y.environment[i],
                )
        },
        _ => false,
    }
}

/// Term equality of two operand values: `Nil` equals only `Nil`, literals
/// compare as terms, and unevaluated register indirections compare by slot.
pub open spec fn val_eq(a: Value, b: Value) -> bool
    decreases a,
{
    match (a, b) {
        (Value::Nil, Value::Nil) => true,
        (Value::Literal(x), Value::Literal(y)) => lit_eq(x, y),
        (Value::Register(x), Value::Register(y)) => x == y,
        _ => false,
    }
}

pub open spec fn list_eq(a: List, b: List) -> bool
    decreases a,
{
    match (a, b) {
        (List::Nil, List::Nil) => true,
        (List::Cons(ah, at), List::Cons(bh, bt)) => val_eq(*ah, *bh) && val_eq(*at, *bt),
        _ => false,
    }
}

pub open spec fn lambda_eq(a: Lambda, b: Lambda) -> bool
    decreases a,
{
    &&& a.module@ == b.module@
    &&& a.first_label == b.first_label
    &&& a.arity == b.arity
    &&& a.environment.len() == b.environment.len()
    &&& forall|i: int|
        0 <= i < a.environment.len() ==> val_eq(#[trigger] a.environment[i], b.environment[i])
}

/// Decides [`lit_eq`].
pub fn literal_eq(a: &Literal, b: &Literal) -> (r: bool)
    ensures
        r == lit_eq(*a, *b),
    decreases *a,
{
    match (a, b) {
        (Literal::Atom(x), Literal::Atom(y)) => *x == *y,
        (Literal::Integer(x), Literal::Integer(y)) => x == y,
        (Literal::Float(x), Literal::Float(y)) => x == y,
        (Literal::Binary(x), Literal::Binary(y)) => byte_vecs_eq(x, y),
        (Literal::List(x), Literal::List(y)) => list_exec_eq(x, y),
        (Literal::Tuple(x), Literal::Tuple(y)) => value_vecs_eq(x, y),
        (Literal::Mapping(x), Literal::Mapping(y)) => entry_vecs_eq(x, y),
        (Literal::Pid(x), Literal::Pid(y)) => x == y,
        (Literal::Lambda(x), Literal::Lambda(y)) => {
            if !(x.module == y.module && x.first_label == y.first_label && x.arity == y.arity) {
                return false;
            }
            value_vecs_eq(&x.environment, &y.environment)
        },
        _ => false,
    }
}

/// Decides [`val_eq`].
pub fn value_eq(a: &Value, b: &Value) -> (r: bool)
    ensures
        r == val_eq(*a, *b),
    decreases *a,
{
    match (a, b) {
        (Value::Nil, Value::Nil) => true,
        (Value::Literal(x), Value::Literal(y)) => literal_eq(x, y),
        (Value::Register(x), Value::Register(y)) => x == y,
        _ => false,
    }
}

fn list_exec_eq(a: &List, b: &List) -> (r: bool)
    ensures
        r == list_eq(*a, *b),
    decreases *a,
{
    match (a, b) {
        (List::Nil, List::Nil) => true,
        (List::Cons(ah, at), List::Cons(bh, bt)) => value_eq(ah, bh) && value_eq(at, bt),
        _ => false,
    }
}

fn value_vecs_eq(a: &Vec<Value>, b: &Vec<Value>) -> (r: bool)
    ensures
        r == (a.len() == b.len() && forall|i: int|
            0 <= i < a.len() ==> val_eq(#[trigger] a[i], b[i])),
    decreases a,
{
    if a.len() != b.len() {
        return false;
    }
    let n = a.len();
    for i in 0..n
        invariant
            n == a.len() == b.len(),
            forall|j: int| 0 <= j < i ==> val_eq(#[trigger] a[j], b[j]),
        decreases n - i,
    {
        if !value_eq(&a[i], &b[i]) {
            return false;
        }
    }
    true
}

fn entry_vecs_eq(a: &Vec<(Literal, Value)>, b: &Vec<(Literal, Value)>) -> (r: bool)
    ensures
        r == (a.len() == b.len() && (forall|i: int|
            0 <= i < a.len() ==> lit_eq(#[trigger] a[i].0, b[i].0)) && (forall|i: int|
            0 <= i < a.len() ==> val_eq(#[trigger] a[i].1, b[i].1))),
    decreases a,
{
    if a.len() != b.len() {
        return false;
    }
    let n = a.len();
    for i in 0..n
        invariant
            n == a.len() == b.len(),
            forall|j: int| 0 <= j < i ==> lit_eq(#[trigger] a[j].0, b[j].0),
            forall|j: int| 0 <= j < i ==> val_eq(#[trigger] a[j].1, b[j].1),
        decreases n - i,
    {
        let ae = &a[i];
        let be = &b[i];
        if !literal_eq(&ae.0, &be.0) {
            assert(!lit_eq(a[i as int].0, b[i as int].0));
            return false;
        }
        if !value_eq(&ae.1, &be.1) {
            assert(!val_eq(a[i as int].1, b[i as int].1));
            return false;
        }
        assert(lit_eq(a[i as int].0, b[i as int].0));
        assert(val_eq(a[i as int].1, b[i as int].1));
    }
    true
}

fn byte_vecs_eq(a: &Vec<u8>, b: &Vec<u8>) -> (r: bool)
    ensures
        r == (a@ == b@),
{
    if a.len() != b.len() {
        assert(a@ != b@) by {
            assert(a@.len() != b@.len());
        }
        return false;
    }
    let n = a.len();
    for i in 0..n
        invariant
            n == a.len() == b.len(),
            forall|j: int| 0 <= j < i ==> a@[j] == b@[j],
        decreases n - i,
    {
        if a[i] != b[i] {
            return false;
        }
    }
    assert(a@ =~= b@);
    true
}

/// The first position in `entries` whose key is term-equal to `key`, if any.
/// This is the specification of map-key and jump-table lookup.
pub open spec fn find_key<T>(entries: Seq<(Literal, T)>, key: Literal) -> Option<int>
    decreases entries.len(),
{
    if entries.len() == 0 {
        None
    } else if lit_eq(entries[0].0, key) {
        Some(0int)
    } else {
        match find_key(entries.skip(1), key) {
            Some(i) => Some(i + 1),
            None => None,
        }
    }
}

/// What a lookup yields: nothing, or the value stored at the first matching
/// key.
pub open spec fn lookup<T>(entries: Seq<(Literal, T)>, key: Literal) -> Option<T> {
    match find_key(entries, key) {
        Some(i) => Some(entries[i].1),
        None => None,
    }
}

pub proof fn lemma_find_key_bounds<T>(entries: Seq<(Literal, T)>, key: Literal)
    ensures
        match find_key(entries, key) {
            Some(i) => 0 <= i < entries.len() && lit_eq(entries[i].0, key),
            None => forall|i: int| 0 <= i < entries.len() ==> !lit_eq(#[trigger] entries[i].0, key),
        },
    decreases entries.len(),
{
    if entries.len() > 0 && !lit_eq(entries[0].0, key) {
        lemma_find_key_bounds(entries.skip(1), key);
        assert forall|i: int| 0 <= i < entries.len() implies
            find_key(entries, key) is None ==> !lit_eq(#[trigger] entries[i].0, key) by {
            if i > 0 {
                assert(entries.skip(1)[i - 1] == entries[i]);
            }
        }
        if find_key(entries.skip(1), key) is Some {
            let j = find_key(entries.skip(1), key)->Some_0;
            assert(entries.skip(1)[j] == entries[j + 1]);
        }
    }
}

/// The prefix property of lookup: positions before the first match do not
/// match.
pub proof fn lemma_find_key_first<T>(entries: Seq<(Literal, T)>, key: Literal)
    ensures
        find_key(entries, key) matches Some(i) ==> forall|j: int|
            0 <= j < i ==> !lit_eq(#[trigger] entries[j].0, key),
    decreases entries.len(),
{
    if entries.len() > 0 && !lit_eq(entries[0].0, key) {
        lemma_find_key_first(entries.skip(1), key);
        lemma_find_key_bounds(entries, key);
        if find_key(entries, key) is Some {
            let i = find_key(entries, key)->Some_0;
            assert forall|j: int| 0 <= j < i implies !lit_eq(#[trigger] entries[j].0, key) by {
                if j > 0 {
                    assert(entries.skip(1)[j - 1] == entries[j]);
                }
            }
        }
    }
}

/// Looks `key` up among `entries`, returning the index of the first
/// term-equal key.
pub fn find_entry<T>(entries: &Vec<(Literal, T)>, key: &Literal) -> (r: Option<usize>)
    ensures
        match r {
            Some(i) => find_key(entries@, *key) == Some(i as int),
            None => find_key(entries@, *key) is None,
        },
{
    let n = entries.len();
    for i in 0..n
        invariant
            n == entries.len(),
            forall|j: int| 0 <= j < i ==> !lit_eq(#[trigger] entries@[j].0, *key),
        decreases n - i,
    {
        if literal_eq(&entries[i].0, key) {
            proof {
                lemma_find_key_of_first_match(entries@, *key, i as int);
            }
            return Some(i);
        }
    }
    proof {
        lemma_find_key_bounds(entries@, *key);
        if find_key(entries@, *key) is Some {
            let i = find_key(entries@, *key)->Some_0;
            assert(!lit_eq(entries@[i].0, *key));
        }
    }
    None
}

/// If position `i` matches and no earlier position does, the lookup finds
/// exactly `i`.
pub proof fn lemma_find_key_of_first_match<T>(entries: Seq<(Literal, T)>, key: Literal, i: int)
    requires
        0 <= i < entries.len(),
        lit_eq(entries[i].0, key),
        forall|j: int| 0 <= j < i ==> !lit_eq(#[trigger] entries[j].0, key),
    ensures
        find_key(entries, key) == Some(i),
    decreases i,
{
    if i > 0 {
        assert forall|j: int| 0 <= j < i - 1 implies
            !lit_eq(#[trigger] entries.skip(1)[j].0, key) by {
            assert(entries.skip(1)[j] == entries[j + 1]);
        }
        assert(entries.skip(1)[i - 1] == entries[i]);
        lemma_find_key_of_first_match(entries.skip(1), key, i - 1);
    }
}

/// Label lookup in a resolved label table: labels are plain integers, and a
/// table built by the loader holds each at most once.
pub open spec fn find_label(table: Seq<(Label, usize)>, l: Label) -> Option<int>
    decreases table.len(),
{
    if table.len() == 0 {
        None
    } else if table[0].0 == l {
        Some(0int)
    } else {
        match find_label(table.skip(1), l) {
            Some(i) => Some(i + 1),
            None => None,
        }
    }
}

pub proof fn lemma_find_label_bounds(table: Seq<(Label, usize)>, l: Label)
    ensures
        match find_label(table, l) {
            Some(i) => 0 <= i < table.len() && table[i].0 == l,
            None => forall|i: int| 0 <= i < table.len() ==> (#[trigger] table[i]).0 != l,
        },
    decreases table.len(),
{
    if table.len() > 0 && table[0].0 != l {
        lemma_find_label_bounds(table.skip(1), l);
        assert forall|i: int| 0 <= i < table.len() implies
            find_label(table, l) is None ==> (#[trigger] table[i]).0 != l by {
            if i > 0 {
                assert(table.skip(1)[i - 1] == table[i]);
            }
        }
        if find_label(table.skip(1), l) is Some {
            let j = find_label(table.skip(1), l)->Some_0;
            assert(table.skip(1)[j] == table[j + 1]);
        }
    }
}

/// The offset a label resolves to, if it is in the table.
pub open spec fn label_offset(table: Seq<(Label, usize)>, l: Label) -> Option<usize> {
    match find_label(table, l) {
        Some(i) => Some(table[i].1),
        None => None,
    }
}

/// Resolves a label against a module's label table.
pub fn resolve_label(table: &Vec<(Label, usize)>, l: Label) -> (r: Option<usize>)
    ensures
        r == label_offset(table@, l),
{
    let n = table.len();
    for i in 0..n
        invariant
            n == table.len(),
            forall|j: int| 0 <= j < i ==> (#[trigger] table@[j]).0 != l,
        decreases n - i,
    {
        if table[i].0 == l {
            proof {
                lemma_find_label_of_first_match(table@, l, i as int);
            }
            return Some(table[i].1);
        }
    }
    proof {
        lemma_find_label_bounds(table@, l);
        if find_label(table@, l) is Some {
            let i = find_label(table@, l)->Some_0;
            assert(table@[i].0 == l);
        }
    }
    None
}

/// Clones every element of a vector of values; each copy is term-equal to
/// its original.
pub fn clone_values(v: &Vec<Value>) -> (r: Vec<Value>)
    ensures
        r.len() == v.len(),
        forall|i: int| 0 <= i < v.len() ==> val_eq(#[trigger] r[i], v[i]),
    decreases v,
{
    let mut r: Vec<Value> = Vec::new();
    let n = v.len();
    for i in 0..n
        invariant
            n == v.len(),
            r.len() == i,
            forall|j: int| 0 <= j < i ==> val_eq(#[trigger] r[j], v[j]),
        decreases n - i,
    {
        let c = v[i].clone();
        r.push(c);
    }
    r
}

fn clone_bytes(v: &Vec<u8>) -> (r: Vec<u8>)
    ensures
        r@ == v@,
{
    let mut r: Vec<u8> = Vec::new();
    let n = v.len();
    for i in 0..n
        invariant
            n == v.len(),
            r@ =~= v@.subrange(0, i as int),
        decreases n - i,
    {
        r.push(v[i]);
    }
    assert(r@ =~= v@);
    r
}

fn clone_entries(v: &Vec<(Literal, Value)>) -> (r: Vec<(Literal, Value)>)
    ensures
        r.len() == v.len(),
        forall|i: int| 0 <= i < v.len() ==> lit_eq(#[trigger] r[i].0, v[i].0),
        forall|i: int| 0 <= i < v.len() ==> val_eq(#[trigger] r[i].1, v[i].1),
    decreases v,
{
    let mut r: Vec<(Literal, Value)> = Vec::new();
    let n = v.len();
    for i in 0..n
        invariant
            n == v.len(),
            r.len() == i,
            forall|j: int| 0 <= j < i ==> lit_eq(#[trigger] r[j].0, v[j].0),
            forall|j: int| 0 <= j < i ==> val_eq(#[trigger] r[j].1, v[j].1),
        decreases n - i,
    {
        let e = &v[i];
        let k = e.0.clone();
        let w = e.1.clone();
        r.push((k, w));
    }
    r
}

impl Clone for Value {
    /// A deep copy; the copy is term-equal to the original.
    fn clone(&self) -> (r: Self)
        ensures
            val_eq(r, *self),
        decreases self,
    {
        match self {
            Value::Nil => Value::Nil,
            Value::Register(x) => Value::Register(*x),
            Value::Literal(l) => Value::Literal(l.clone()),
        }
    }
}

impl Clone for List {
    /// A deep copy; the copy is term-equal to the original.
    fn clone(&self) -> (r: Self)
        ensures
            list_eq(r, *self),
        decreases self,
    {
        match self {
            List::Nil => List::Nil,
            List::Cons(h, t) => {
                let hc = (**h).clone();
                let tc = (**t).clone();
                List::Cons(Box::new(hc), Box::new(tc))
            },
        }
    }
}

impl Clone for Lambda {
    /// A deep copy; the copy is term-equal to the original.
    fn clone(&self) -> (r: Self)
        ensures
            lambda_eq(r, *self),
        decreases self,
    {
        Lambda {
            module: self.module.clone(),
            first_label: self.first_label,
            arity: self.arity,
            environment: clone_values(&self.environment),
        }
    }
}

impl Clone for Literal {
    /// A deep copy; the copy is term-equal to the original.
    fn clone(&self) -> (r: Self)
        ensures
            lit_eq(r, *self),
        decreases self,
    {
        match self {
            Literal::Atom(a) => Literal::Atom(a.clone()),
            Literal::Integer(i) => Literal::Integer(*i),
            Literal::Float(f) => Literal::Float(*f),
            Literal::Binary(b) => Literal::Binary(clone_bytes(b)),
            Literal::List(l) => Literal::List(l.clone()),
            Literal::Tuple(es) => Literal::Tuple(clone_values(es)),
            Literal::Mapping(es) => Literal::Mapping(clone_entries(es)),
            Literal::Pid(p) => Literal::Pid(*p),
            Literal::Lambda(l) => Literal::Lambda(l.clone()),
        }
    }
}

pub proof fn lemma_find_label_of_first_match(table: Seq<(Label, usize)>, l: Label, i: int)
    requires
        0 <= i < table.len(),
        table[i].0 == l,
        forall|j: int| 0 <= j < i ==> (#[trigger] table[j]).0 != l,
    ensures
        find_label(table, l) == Some(i),
    decreases i,
{
    if i > 0 {
        assert forall|j: int| 0 <= j < i - 1 implies (#[trigger] table.skip(1)[j]).0 != l by {
            assert(table.skip(1)[j] == table[j + 1]);
        }
        assert(table.skip(1)[i - 1] == table[i]);
        lemma_find_label_of_first_match(table.skip(1), l, i - 1);
    }
}

} // verus!
