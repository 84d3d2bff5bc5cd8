use lam_emu::bytecode::FnCall;
use lam_emu::bytecode::Instruction;
use lam_emu::bytecode::List;
use lam_emu::bytecode::Literal;
use lam_emu::bytecode::Register;
use lam_emu::bytecode::Signal;
use lam_emu::bytecode::Value;
use lam_emu::control::cons_list;
use lam_emu::control::eval_test;
use lam_emu::control::get_map_elements;
use lam_emu::control::get_tuple_element;
use lam_emu::control::make_tuple;
use lam_emu::control::split_list;
use lam_emu::mailbox::Mailbox;
use lam_emu::modules::Module;
use lam_emu::registers::RegisterFile;
use lam_emu::term::literal_eq;
use lam_emu::term::value_eq;

fn lit(l: Literal) -> Value {
    Value::Literal(l)
}

fn num(i: i128) -> Value {
    Value::Literal(Literal::Integer(i))
}

fn atom(s: &str) -> Literal {
    Literal::Atom(s.to_string())
}

#[test]
fn register_write_then_read_round_trips() {
    let mut rf = RegisterFile::new(4);
    rf.write(&Register::Global(2), num(42));
    assert_eq!(*rf.read(&Register::Global(2)), num(42));
    assert_eq!(*rf.read(&Register::Global(0)), Value::Nil);
    rf.write(&Register::Global(2), lit(atom("x")));
    assert_eq!(*rf.read(&Register::Global(2)), lit(atom("x")));
}

#[test]
fn register_swap_and_clear() {
    let mut rf = RegisterFile::new(4);
    rf.write(&Register::Global(0), num(1));
    rf.write(&Register::Global(1), num(2));
    rf.swap(&Register::Global(0), &Register::Global(1));
    assert_eq!(*rf.read(&Register::Global(0)), num(2));
    assert_eq!(*rf.read(&Register::Global(1)), num(1));
    rf.clear(&Register::Global(0));
    assert_eq!(*rf.read(&Register::Global(0)), Value::Nil);
}

#[test]
fn local_windows_allocate_write_and_pop() {
    let mut rf = RegisterFile::new(2);
    rf.write(&Register::Global(0), num(9));
    rf.allocate(3, 1);
    // The first global survives the allocation; the rest are cleared.
    assert_eq!(*rf.read(&Register::Global(0)), num(9));
    assert_eq!(*rf.read(&Register::Global(1)), Value::Nil);
    rf.write(&Register::Local(2), num(7));
    assert_eq!(*rf.read(&Register::Local(2)), num(7));
    assert_eq!(*rf.read(&Register::Local(0)), Value::Nil);
    rf.allocate(1, 2);
    assert_eq!(*rf.read(&Register::Local(0)), Value::Nil);
    rf.pop_window();
    assert_eq!(*rf.read(&Register::Local(2)), num(7));
    rf.pop_window();
    assert_eq!(rf.window_count(), 0);
}

#[test]
fn shift_locals_discards_the_lowest() {
    let mut rf = RegisterFile::new(0);
    rf.allocate(3, 0);
    rf.write(&Register::Local(0), num(10));
    rf.write(&Register::Local(1), num(11));
    rf.write(&Register::Local(2), num(12));
    rf.shift_locals(2);
    assert_eq!(*rf.read(&Register::Local(0)), num(12));
}

#[test]
fn cons_then_split_recovers_head_and_tail() {
    let mut rf = RegisterFile::new(4);
    cons_list(&mut rf, &num(1), &lit(Literal::List(List::Nil)), &Register::Global(0)).unwrap();
    let r = split_list(&mut rf, &Register::Global(0), &Register::Global(1), &Register::Global(2));
    assert!(r.is_ok());
    assert_eq!(*rf.read(&Register::Global(1)), num(1));
    assert_eq!(*rf.read(&Register::Global(2)), lit(Literal::List(List::Nil)));
}

#[test]
fn split_of_nil_signals_badmatch_and_writes_nothing() {
    let mut rf = RegisterFile::new(4);
    rf.write(&Register::Global(0), lit(Literal::List(List::Nil)));
    rf.write(&Register::Global(1), num(99));
    let r = split_list(&mut rf, &Register::Global(0), &Register::Global(1), &Register::Global(2));
    assert_eq!(r, Err(Signal::Badmatch));
    assert_eq!(*rf.read(&Register::Global(1)), num(99));
    assert_eq!(*rf.read(&Register::Global(2)), Value::Nil);
}

#[test]
fn tuple_elements_come_back_unchanged() {
    let mut rf = RegisterFile::new(4);
    rf.write(&Register::Global(1), lit(atom("tag")));
    let elements = vec![Value::Register(Register::Global(1)), num(20), num(30)];
    make_tuple(&mut rf, &Register::Global(0), &elements).unwrap();
    for (i, expected) in [lit(atom("tag")), num(20), num(30)].iter().enumerate() {
        get_tuple_element(&mut rf, &Register::Global(0), i as u32, &Register::Global(2)).unwrap();
        assert_eq!(*rf.read(&Register::Global(2)), *expected);
    }
}

#[test]
fn tuple_index_out_of_range_is_a_fault() {
    let mut rf = RegisterFile::new(2);
    make_tuple(&mut rf, &Register::Global(0), &vec![num(1)]).unwrap();
    let r = get_tuple_element(&mut rf, &Register::Global(0), 1, &Register::Global(1));
    assert_eq!(r, Err(lam_emu::Fault::TupleIndexOutOfRange));
    let r2 = get_tuple_element(&mut rf, &Register::Global(1), 0, &Register::Global(1));
    assert_eq!(r2, Err(lam_emu::Fault::BadOperand));
}

#[test]
fn map_extraction_is_all_or_nothing() {
    let mut rf = RegisterFile::new(4);
    let map = Literal::Mapping(vec![(atom("a"), num(1)), (atom("b"), num(2))]);
    rf.write(&Register::Global(0), lit(map));
    // Every key present: every target is written and control falls through.
    let all = vec![(atom("a"), Register::Global(1)), (atom("b"), Register::Global(2))];
    assert_eq!(get_map_elements(&mut rf, &Register::Global(0), &all), Ok(true));
    assert_eq!(*rf.read(&Register::Global(1)), num(1));
    assert_eq!(*rf.read(&Register::Global(2)), num(2));
    // One key missing: no target is written, not even for the present key.
    let mut rf2 = RegisterFile::new(4);
    let map2 = Literal::Mapping(vec![(atom("a"), num(1))]);
    rf2.write(&Register::Global(0), lit(map2));
    let some = vec![(atom("a"), Register::Global(1)), (atom("c"), Register::Global(2))];
    assert_eq!(get_map_elements(&mut rf2, &Register::Global(0), &some), Ok(false));
    assert_eq!(*rf2.read(&Register::Global(1)), Value::Nil);
    assert_eq!(*rf2.read(&Register::Global(2)), Value::Nil);
}

#[test]
fn mailbox_is_first_in_first_out() {
    let mut mb = Mailbox::new();
    mb.deliver(atom("one"));
    mb.deliver(atom("two"));
    mb.deliver(atom("three"));
    for expected in ["one", "two", "three"] {
        let m = mb.peek().unwrap();
        assert!(literal_eq(&m, &atom(expected)));
        mb.remove_selected();
    }
    assert_eq!(mb.len(), 0);
    assert!(mb.peek().is_none());
}

#[test]
fn peeking_does_not_remove() {
    let mut mb = Mailbox::new();
    mb.deliver(atom("m"));
    assert!(mb.peek().is_some());
    assert_eq!(mb.len(), 1);
    mb.remove_selected();
    assert_eq!(mb.len(), 0);
}

#[test]
fn term_equality_is_structural() {
    assert!(literal_eq(&atom("x"), &atom("x")));
    assert!(!literal_eq(&atom("x"), &atom("y")));
    assert!(literal_eq(&Literal::Integer(3), &Literal::Integer(3)));
    assert!(!literal_eq(&Literal::Integer(3), &Literal::Integer(4)));
    let t1 = Literal::Tuple(vec![num(1), lit(atom("a"))]);
    let t2 = Literal::Tuple(vec![num(1), lit(atom("a"))]);
    let t3 = Literal::Tuple(vec![num(1), lit(atom("b"))]);
    assert!(literal_eq(&t1, &t2));
    assert!(!literal_eq(&t1, &t3));
    assert!(value_eq(&Value::Nil, &Value::Nil));
    assert!(!value_eq(&Value::Nil, &num(0)));
}

#[test]
fn test_predicates_evaluate_over_resolved_operands() {
    let mut rf = RegisterFile::new(3);
    rf.write(&Register::Global(0), num(5));
    let t = lam_emu::bytecode::Test::Equals(Value::Register(Register::Global(0)), num(5));
    assert_eq!(eval_test(&rf, &t), Ok(true));
    let ge = lam_emu::bytecode::Test::IsGreaterOrEqualThan(
        Value::Register(Register::Global(0)),
        num(6),
    );
    assert_eq!(eval_test(&rf, &ge), Ok(false));
    let nil = lam_emu::bytecode::Test::IsNil(Value::Nil);
    assert_eq!(eval_test(&rf, &nil), Ok(true));
    let bad = lam_emu::bytecode::Test::IsGreaterOrEqualThan(num(1), lit(atom("a")));
    assert_eq!(eval_test(&rf, &bad), Err(lam_emu::Fault::BadOperand));
}

#[test]
fn module_load_resolves_labels_once() {
    let m = Module::load(
        "m".to_string(),
        vec![
            Instruction::Label(7),
            Instruction::Halt,
            Instruction::Label(9),
            Instruction::Halt,
        ],
        vec![("f".to_string(), 0, 9)],
    );
    assert_eq!(m.resolve(7), Some(0));
    assert_eq!(m.resolve(9), Some(2));
    assert_eq!(m.resolve(8), None);
    assert_eq!(m.export_label(&"f".to_string(), 0), Some(9));
    assert_eq!(m.export_label(&"f".to_string(), 1), None);
    assert_eq!(m.export_label(&"g".to_string(), 0), None);
}

#[test]
fn call_site_accessors_report_the_descriptor() {
    let c = FnCall::Qualified { module: "m".to_string(), function: "f".to_string(), arity: 2 };
    assert_eq!(c.arity(), 2);
    assert_eq!(c.module(), Some("m".to_string()));
    assert_eq!(c.function(), "f".to_string());
    let l = FnCall::Local { module: "m".to_string(), label: 4, arity: 1 };
    assert_eq!(l.arity(), 1);
    assert_eq!(l.module(), Some("m".to_string()));
}

#[test]
fn defaults_are_nil_and_halt() {
    assert_eq!(Value::default(), Value::Nil);
    assert_eq!(Instruction::default(), Instruction::Halt);
    assert_eq!(Value::from(Literal::Integer(1)), num(1));
    assert_eq!(num(1).into_literal(), Literal::Integer(1));
}
