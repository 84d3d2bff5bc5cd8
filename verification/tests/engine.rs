use lam_emu::bytecode::FnCall;
use lam_emu::bytecode::FnKind;
use lam_emu::bytecode::Instruction;
use lam_emu::bytecode::Literal;
use lam_emu::bytecode::MFA;
use lam_emu::bytecode::Register;
use lam_emu::bytecode::Signal;
use lam_emu::bytecode::Spawn;
use lam_emu::bytecode::Value;
use lam_emu::modules::Module;
use lam_emu::modules::Program;
use lam_emu::process::Status;
use lam_emu::runtime::Runtime;
use lam_emu::scheduler::Scheduler;

struct ArithRuntime;

impl Runtime for ArithRuntime {
    fn execute(&mut self, mfa: &MFA, args: &Vec<Literal>) -> Result<Literal, Literal> {
        match (mfa.module.as_str(), mfa.function.as_str()) {
            ("erlang", "+") => match (&args[0], &args[1]) {
                (Literal::Integer(a), Literal::Integer(b)) => Ok(Literal::Integer(a + b)),
                _ => Err(Literal::Atom("badarg".to_string())),
            },
            ("erlang", "-") => match (&args[0], &args[1]) {
                (Literal::Integer(a), Literal::Integer(b)) => Ok(Literal::Integer(a - b)),
                _ => Err(Literal::Atom("badarg".to_string())),
            },
            _ => Err(Literal::Atom("undef".to_string())),
        }
    }
}

fn num(i: i128) -> Value {
    Value::Literal(Literal::Integer(i))
}

fn atom(s: &str) -> Literal {
    Literal::Atom(s.to_string())
}

fn one_module(instructions: Vec<Instruction>, exports: Vec<(String, u32, u32)>) -> Program {
    let mut prog = Program::new();
    prog.add_module(Module::load("m".to_string(), instructions, exports));
    prog
}

fn boot(sched: &mut Scheduler, prog: &Program, function: &str, args: Vec<Value>) -> u64 {
    let arity = args.len() as u32;
    sched
        .spawn_mfa(prog, &"m".to_string(), &function.to_string(), arity, &args)
        .ok()
        .expect("boot process")
}

#[test]
fn spawn_hands_arguments_to_the_child_and_the_pid_to_the_parent() {
    // m:f/1 sits at label 9; the root spawns it with argument 5.
    let prog = one_module(
        vec![
            Instruction::Label(1),
            Instruction::Spawn(Spawn::MFA {
                module: "m".to_string(),
                function: "f".to_string(),
                arity: 1,
                arguments: vec![num(5)],
            }),
            Instruction::Halt,
            Instruction::Label(9),
            Instruction::Halt,
        ],
        vec![("root".to_string(), 0, 1), ("f".to_string(), 1, 9)],
    );
    let mut sched = Scheduler::new(4);
    let mut rt = ArithRuntime;
    let root = boot(&mut sched, &prog, "root", vec![]);
    sched.step(&prog, &mut rt, 0).unwrap(); // Label
    sched.step(&prog, &mut rt, 0).unwrap(); // Spawn
    assert_eq!(sched.processes.len(), 2);
    let child = &sched.processes[1];
    assert_ne!(child.pid, root);
    assert!(matches!(child.status, Status::Runnable));
    // The child begins at m:f/1 with Global(0) = 5.
    assert_eq!(child.location.ip, 3);
    assert_eq!(*child.registers.read(&Register::Global(0)), num(5));
    // The parent's Global(0) holds the new process identifier.
    let parent = &sched.processes[0];
    assert_eq!(
        *parent.registers.read(&Register::Global(0)),
        Value::Literal(Literal::Pid(child.pid))
    );
}

#[test]
fn send_peek_remove_round_trips_a_message() {
    // The receiver peeks into Global(1), removes, and halts; an empty
    // mailbox jumps to label 9.
    let prog = one_module(
        vec![
            Instruction::Label(1),
            Instruction::PeekMessage { on_mailbox_empty: 9, message: Register::Global(1) },
            Instruction::RemoveMessage,
            Instruction::Halt,
            Instruction::Label(9),
            Instruction::Halt,
        ],
        vec![("recv".to_string(), 0, 1)],
    );
    let mut sched = Scheduler::new(4);
    let mut rt = ArithRuntime;
    let pid = boot(&mut sched, &prog, "recv", vec![]);
    sched.deliver(pid, atom("ping"));
    sched.step(&prog, &mut rt, 0).unwrap(); // Label
    sched.step(&prog, &mut rt, 0).unwrap(); // PeekMessage
    assert_eq!(
        *sched.processes[0].registers.read(&Register::Global(1)),
        Value::Literal(atom("ping"))
    );
    assert_eq!(sched.processes[0].mailbox.len(), 1);
    sched.step(&prog, &mut rt, 0).unwrap(); // RemoveMessage
    assert_eq!(sched.processes[0].mailbox.len(), 0);
}

#[test]
fn peek_on_an_empty_mailbox_jumps_and_writes_nothing() {
    let prog = one_module(
        vec![
            Instruction::Label(1),
            Instruction::PeekMessage { on_mailbox_empty: 9, message: Register::Global(1) },
            Instruction::Halt,
            Instruction::Label(9),
            Instruction::Halt,
        ],
        vec![("recv".to_string(), 0, 1)],
    );
    let mut sched = Scheduler::new(4);
    let mut rt = ArithRuntime;
    boot(&mut sched, &prog, "recv", vec![]);
    sched.step(&prog, &mut rt, 0).unwrap(); // Label
    sched.step(&prog, &mut rt, 0).unwrap(); // PeekMessage on empty mailbox
    assert_eq!(sched.processes[0].location.ip, 3);
    assert_eq!(*sched.processes[0].registers.read(&Register::Global(1)), Value::Nil);
}

#[test]
fn conditional_jump_dispatches_on_the_literal() {
    let code = vec![
        Instruction::Label(1),
        Instruction::ConditionalJump {
            register: Register::Global(0),
            error: 20,
            table: vec![(Literal::Integer(1), 10), (Literal::Integer(2), 11)],
        },
        Instruction::Label(10),
        Instruction::Label(11),
        Instruction::Label(20),
    ];
    let prog = one_module(code, vec![("f".to_string(), 1, 1)]);
    let mut rt = ArithRuntime;

    // Integer(2) hits the table and lands on label 11.
    let mut sched = Scheduler::new(4);
    boot(&mut sched, &prog, "f", vec![num(2)]);
    sched.step(&prog, &mut rt, 0).unwrap(); // Label
    sched.step(&prog, &mut rt, 0).unwrap(); // ConditionalJump
    assert_eq!(sched.processes[0].location.ip, 3);

    // Integer(3) misses and lands on the error label.
    let mut sched2 = Scheduler::new(4);
    boot(&mut sched2, &prog, "f", vec![num(3)]);
    sched2.step(&prog, &mut rt, 0).unwrap();
    sched2.step(&prog, &mut rt, 0).unwrap();
    assert_eq!(sched2.processes[0].location.ip, 4);
}

#[test]
fn tail_calls_run_in_constant_stack_space() {
    // f loops on itself with tail calls forever.
    let prog = one_module(
        vec![
            Instruction::Label(1),
            Instruction::TailCall(
                FnCall::Local { module: "m".to_string(), label: 1, arity: 0 },
                FnKind::User,
            ),
        ],
        vec![("f".to_string(), 0, 1)],
    );
    let mut sched = Scheduler::new(2);
    let mut rt = ArithRuntime;
    boot(&mut sched, &prog, "f", vec![]);
    let steps = sched.run(&prog, &mut rt, 64).unwrap();
    assert_eq!(steps, 64);
    assert!(matches!(sched.processes[0].status, Status::Runnable));
    assert_eq!(sched.processes[0].stack.len(), 0);
}

#[test]
fn plain_calls_grow_the_stack_linearly() {
    let prog = one_module(
        vec![
            Instruction::Label(1),
            Instruction::Call(
                FnCall::Local { module: "m".to_string(), label: 1, arity: 0 },
                FnKind::User,
            ),
        ],
        vec![("f".to_string(), 0, 1)],
    );
    let mut sched = Scheduler::new(2);
    let mut rt = ArithRuntime;
    boot(&mut sched, &prog, "f", vec![]);
    // Every other step is a Call, each pushing one continuation.
    sched.run(&prog, &mut rt, 64).unwrap();
    assert_eq!(sched.processes[0].stack.len(), 32);
}

#[test]
fn kill_is_terminal() {
    let prog = one_module(
        vec![Instruction::Label(1), Instruction::Kill],
        vec![("f".to_string(), 0, 1)],
    );
    let mut sched = Scheduler::new(2);
    let mut rt = ArithRuntime;
    let pid = boot(&mut sched, &prog, "f", vec![]);
    sched.run(&prog, &mut rt, 16).unwrap();
    assert!(matches!(sched.processes[0].status, Status::Terminated));
    assert_eq!(sched.processes[0].mailbox.len(), 0);
    // Never scheduled again, and deliveries to it are dropped.
    assert_eq!(sched.select_next(), None);
    sched.deliver(pid, atom("late"));
    assert_eq!(sched.processes[0].mailbox.len(), 0);
    assert!(matches!(sched.processes[0].status, Status::Terminated));
}

#[test]
fn badmatch_terminates_only_the_faulting_process() {
    let prog = one_module(
        vec![
            Instruction::Label(1),
            Instruction::Badmatch,
            Instruction::Label(2),
            Instruction::Jump(2),
        ],
        vec![("bad".to_string(), 0, 1), ("spin".to_string(), 0, 2)],
    );
    let mut sched = Scheduler::new(2);
    let mut rt = ArithRuntime;
    boot(&mut sched, &prog, "bad", vec![]);
    boot(&mut sched, &prog, "spin", vec![]);
    sched.step(&prog, &mut rt, 0).unwrap(); // Label
    sched.step(&prog, &mut rt, 0).unwrap(); // Badmatch
    assert!(matches!(sched.processes[0].status, Status::Terminated));
    assert_eq!(sched.processes[0].exit_signal, Some(Signal::Badmatch));
    assert!(matches!(sched.processes[1].status, Status::Runnable));
    // The survivor keeps running.
    let steps = sched.run(&prog, &mut rt, 8).unwrap();
    assert_eq!(steps, 8);
}

#[test]
fn builtins_delegate_to_the_runtime() {
    let prog = one_module(
        vec![
            Instruction::Label(1),
            Instruction::Call(
                FnCall::BuiltIn {
                    module: "erlang".to_string(),
                    function: "+".to_string(),
                    arity: 2,
                    arguments: vec![num(40), num(2)],
                    destination: Register::Global(0),
                },
                FnKind::Native,
            ),
            Instruction::Halt,
        ],
        vec![("f".to_string(), 0, 1)],
    );
    let mut sched = Scheduler::new(2);
    let mut rt = ArithRuntime;
    boot(&mut sched, &prog, "f", vec![]);
    sched.step(&prog, &mut rt, 0).unwrap();
    sched.step(&prog, &mut rt, 0).unwrap();
    assert_eq!(*sched.processes[0].registers.read(&Register::Global(0)), num(42));
}

#[test]
fn a_runtime_failure_terminates_only_the_caller() {
    let prog = one_module(
        vec![
            Instruction::Label(1),
            Instruction::Call(
                FnCall::BuiltIn {
                    module: "erlang".to_string(),
                    function: "nonsuch".to_string(),
                    arity: 0,
                    arguments: vec![],
                    destination: Register::Global(0),
                },
                FnKind::Native,
            ),
            Instruction::Halt,
        ],
        vec![("f".to_string(), 0, 1)],
    );
    let mut sched = Scheduler::new(2);
    let mut rt = ArithRuntime;
    boot(&mut sched, &prog, "f", vec![]);
    sched.step(&prog, &mut rt, 0).unwrap();
    sched.step(&prog, &mut rt, 0).unwrap();
    assert!(matches!(sched.processes[0].status, Status::Terminated));
    assert_eq!(sched.processes[0].exit_signal, Some(Signal::RuntimeFailure));
}

#[test]
fn lambdas_capture_globals_and_spawn_restores_them() {
    let prog = one_module(
        vec![
            Instruction::Label(1),
            Instruction::MakeLambda {
                first_label: 9,
                module: "m".to_string(),
                arity: 0,
                environment_size: 2,
            },
            Instruction::Spawn(Spawn::Lambda { register: Register::Global(0) }),
            Instruction::Halt,
            Instruction::Label(9),
            Instruction::Halt,
        ],
        vec![("f".to_string(), 2, 1)],
    );
    let mut sched = Scheduler::new(4);
    let mut rt = ArithRuntime;
    boot(&mut sched, &prog, "f", vec![num(7), num(8)]);
    sched.step(&prog, &mut rt, 0).unwrap(); // Label
    sched.step(&prog, &mut rt, 0).unwrap(); // MakeLambda
    sched.step(&prog, &mut rt, 0).unwrap(); // Spawn
    assert_eq!(sched.processes.len(), 2);
    let child = &sched.processes[1];
    assert_eq!(child.location.ip, 4);
    // The captured environment (globals 0 and 1 at capture time) is
    // restored into the child's globals.
    assert_eq!(*child.registers.read(&Register::Global(0)), num(7));
    assert_eq!(*child.registers.read(&Register::Global(1)), num(8));
}

#[test]
fn applying_a_lambda_restores_its_environment_above_the_arguments() {
    // Capture [7, 8], stash the closure in G2, put argument 5 in G0, and
    // apply: the argument stays below, the environment lands above it.
    let prog = one_module(
        vec![
            Instruction::Label(1),
            Instruction::Move(num(7), Register::Global(0)),
            Instruction::Move(num(8), Register::Global(1)),
            Instruction::MakeLambda {
                first_label: 9,
                module: "m".to_string(),
                arity: 1,
                environment_size: 2,
            },
            Instruction::Move(Value::Register(Register::Global(0)), Register::Global(2)),
            Instruction::Move(num(5), Register::Global(0)),
            Instruction::Call(
                FnCall::ApplyLambda { arity: 1, register: Register::Global(2) },
                FnKind::User,
            ),
            Instruction::Halt,
            Instruction::Label(9),
            Instruction::Halt,
        ],
        vec![("f".to_string(), 0, 1)],
    );
    let mut sched = Scheduler::new(4);
    let mut rt = ArithRuntime;
    boot(&mut sched, &prog, "f", vec![]);
    for _ in 0..7 {
        sched.step(&prog, &mut rt, 0).unwrap();
    }
    let p = &sched.processes[0];
    assert_eq!(p.location.ip, 8);
    assert_eq!(p.stack.len(), 1);
    assert_eq!(*p.registers.read(&Register::Global(0)), num(5));
    assert_eq!(*p.registers.read(&Register::Global(1)), num(7));
    assert_eq!(*p.registers.read(&Register::Global(2)), num(8));
}

#[test]
fn sleep_parks_until_a_message_arrives() {
    let prog = one_module(
        vec![
            Instruction::Label(1),
            Instruction::Sleep(9),
            Instruction::Label(9),
            Instruction::PeekMessage { on_mailbox_empty: 9, message: Register::Global(0) },
            Instruction::Halt,
        ],
        vec![("f".to_string(), 0, 1)],
    );
    let mut sched = Scheduler::new(2);
    let mut rt = ArithRuntime;
    let pid = boot(&mut sched, &prog, "f", vec![]);
    sched.step(&prog, &mut rt, 0).unwrap(); // Label
    sched.step(&prog, &mut rt, 0).unwrap(); // Sleep
    assert!(matches!(sched.processes[0].status, Status::Waiting { .. }));
    assert_eq!(sched.select_next(), None);
    sched.deliver(pid, atom("wake"));
    assert!(matches!(sched.processes[0].status, Status::Runnable));
    // Resumed at the sleep label, the peek now finds the message.
    sched.step(&prog, &mut rt, 0).unwrap(); // Label 9
    sched.step(&prog, &mut rt, 0).unwrap(); // PeekMessage
    assert_eq!(
        *sched.processes[0].registers.read(&Register::Global(0)),
        Value::Literal(atom("wake"))
    );
}

#[test]
fn unknown_qualified_call_is_fatal_to_the_process_only() {
    let prog = one_module(
        vec![
            Instruction::Label(1),
            Instruction::Call(
                FnCall::Qualified {
                    module: "m".to_string(),
                    function: "missing".to_string(),
                    arity: 0,
                },
                FnKind::User,
            ),
        ],
        vec![("f".to_string(), 0, 1)],
    );
    let mut sched = Scheduler::new(2);
    let mut rt = ArithRuntime;
    boot(&mut sched, &prog, "f", vec![]);
    sched.step(&prog, &mut rt, 0).unwrap();
    sched.step(&prog, &mut rt, 0).unwrap();
    assert!(matches!(sched.processes[0].status, Status::Terminated));
    assert_eq!(sched.processes[0].exit_signal, Some(Signal::UnknownFunction));
}

#[test]
fn calls_return_through_the_continuation() {
    // f calls g, which returns 3 in Global(0); f then halts.
    let prog = one_module(
        vec![
            Instruction::Label(1),
            Instruction::Call(
                FnCall::Local { module: "m".to_string(), label: 9, arity: 0 },
                FnKind::User,
            ),
            Instruction::Halt,
            Instruction::Label(9),
            Instruction::Move(num(3), Register::Global(0)),
            Instruction::Return,
        ],
        vec![("f".to_string(), 0, 1)],
    );
    let mut sched = Scheduler::new(2);
    let mut rt = ArithRuntime;
    boot(&mut sched, &prog, "f", vec![]);
    let steps = sched.run(&prog, &mut rt, 16).unwrap();
    assert!(steps < 16);
    assert!(matches!(sched.processes[0].status, Status::Terminated));
}

#[test]
fn run_stops_when_nothing_is_runnable() {
    let prog = one_module(
        vec![Instruction::Label(1), Instruction::Halt],
        vec![("f".to_string(), 0, 1)],
    );
    let mut sched = Scheduler::new(2);
    let mut rt = ArithRuntime;
    boot(&mut sched, &prog, "f", vec![]);
    let steps = sched.run(&prog, &mut rt, 100).unwrap();
    assert_eq!(steps, 2);
    assert_eq!(sched.select_next(), None);
}
