//! Loaded module images: an ordered instruction sequence, the label table
//! resolved at load time, and the exported function table. The control and
//! call units consume these read-only; code is never mutated after loading.

use vstd::prelude::*;

use crate::bytecode::Arity;
use crate::bytecode::Atom;
use crate::bytecode::Instruction;
use crate::bytecode::Label;
use crate::term::label_offset;
use crate::term::resolve_label;

verus! {

/// The label table a conforming loader derives from an instruction
/// sequence: one entry per `Label` marker, at its own offset.
pub open spec fn labels_of(instrs: Seq<Instruction>) -> Seq<(Label, usize)>
    decreases instrs.len(),
{
    if instrs.len() == 0 {
        Seq::empty()
    } else {
        let prefix = labels_of(instrs.drop_last());
        match instrs.last() {
            Instruction::Label(l) => prefix.push((l, (instrs.len() - 1) as usize)),
            _ => prefix,
        }
    }
}

/// One loaded module: name, code, and the two flat lookup tables built once
/// at load time.
pub struct Module {
    pub name: Atom,
    pub instructions: Vec<Instruction>,
    pub labels: Vec<(Label, usize)>,
    /// `(function, arity) -> entry label` for every exported function.
    pub exports: Vec<(Atom, Arity, Label)>,
}

impl Module {
    /// The label table is exactly the one the code dictates.
    pub open spec fn wf(self) -> bool {
        self.labels@ == labels_of(self.instructions@)
    }

    /// Loads a module: scans the code once and resolves every `Label`
    /// marker to its offset.
    pub fn load(name: Atom, instructions: Vec<Instruction>, exports: Vec<(Atom, Arity, Label)>)
        -> (m: Module)
        ensures
            m.wf(),
            m.name == name,
            m.instructions == instructions,
            m.exports == exports,
    {
        let mut labels: Vec<(Label, usize)> = Vec::new();
        let n = instructions.len();
        for i in 0..n
            invariant
                n == instructions.len(),
                labels@ == labels_of(instructions@.take(i as int)),
            decreases n - i,
        {
            proof {
                assert(instructions@.take(i + 1).drop_last() =~= instructions@.take(i as int));
                assert(instructions@.take(i + 1).last() == instructions@[i as int]);
            }
            match &instructions[i] {
                Instruction::Label(l) => {
                    labels.push((*l, i));
                },
                _ => {},
            }
        }
        proof {
            assert(instructions@.take(n as int) =~= instructions@);
        }
        Module { name, instructions, labels, exports }
    }

    /// Resolves a label to its instruction offset in this module.
    pub fn resolve(&self, l: Label) -> (r: Option<usize>)
        ensures
            r == label_offset(self.labels@, l),
    {
        resolve_label(&self.labels, l)
    }

    /// The first export table entry for `(function, arity)`, if any.
    pub open spec fn spec_export(self, f: Seq<char>, a: Arity) -> Option<Label> {
        find_export(self.exports@, f, a)
    }

    /// Looks an exported function up by name and arity.
    pub fn export_label(&self, f: &String, a: Arity) -> (r: Option<Label>)
        ensures
            r == self.spec_export(f@, a),
    {
        let n = self.exports.len();
        for i in 0..n
            invariant
                n == self.exports.len(),
                forall|j: int|
                    0 <= j < i ==> !((#[trigger] self.exports@[j]).0@ == f@ && self.exports@[j].1
                        == a),
            decreases n - i,
        {
            let e = &self.exports[i];
            if e.0 == *f && e.1 == a {
                proof {
                    lemma_find_export_of_first_match(self.exports@, f@, a, i as int);
                }
                return Some(e.2);
            }
        }
        proof {
            lemma_find_export_none(self.exports@, f@, a);
        }
        None
    }
}

/// The first export entry matching name and arity.
pub open spec fn find_export(exports: Seq<(Atom, Arity, Label)>, f: Seq<char>, a: Arity) -> Option<
    Label,
>
    decreases exports.len(),
{
    if exports.len() == 0 {
        None
    } else if exports[0].0@ == f && exports[0].1 == a {
        Some(exports[0].2)
    } else {
        find_export(exports.skip(1), f, a)
    }
}

proof fn lemma_find_export_of_first_match(
    exports: Seq<(Atom, Arity, Label)>,
    f: Seq<char>,
    a: Arity,
    i: int,
)
    requires
        0 <= i < exports.len(),
        exports[i].0@ == f && exports[i].1 == a,
        forall|j: int| 0 <= j < i ==> !((#[trigger] exports[j]).0@ == f && exports[j].1 == a),
    ensures
        find_export(exports, f, a) == Some(exports[i].2),
    decreases i,
{
    if i > 0 {
        assert forall|j: int| 0 <= j < i - 1 implies !((#[trigger] exports.skip(1)[j]).0@ == f
            && exports.skip(1)[j].1 == a) by {
            assert(exports.skip(1)[j] == exports[j + 1]);
        }
        assert(exports.skip(1)[i - 1] == exports[i]);
        lemma_find_export_of_first_match(exports.skip(1), f, a, i - 1);
    }
}

proof fn lemma_find_export_none(exports: Seq<(Atom, Arity, Label)>, f: Seq<char>, a: Arity)
    requires
        forall|j: int|
            0 <= j < exports.len() ==> !((#[trigger] exports[j]).0@ == f && exports[j].1 == a),
    ensures
        find_export(exports, f, a) is None,
    decreases exports.len(),
{
    if exports.len() > 0 {
        assert forall|j: int| 0 <= j < exports.len() - 1 implies !((#[trigger] exports.skip(
            1,
        )[j]).0@ == f && exports.skip(1)[j].1 == a) by {
            assert(exports.skip(1)[j] == exports[j + 1]);
        }
        lemma_find_export_none(exports.skip(1), f, a);
    }
}

/// The set of loaded modules, keyed by name.
pub struct Program {
    pub modules: Vec<Module>,
}

/// The index of the first module with the given name.
pub open spec fn find_module(mods: Seq<Module>, name: Seq<char>) -> Option<int>
    decreases mods.len(),
{
    if mods.len() == 0 {
        None
    } else if mods[0].name@ == name {
        Some(0int)
    } else {
        match find_module(mods.skip(1), name) {
            Some(i) => Some(i + 1),
            None => None,
        }
    }
}

pub proof fn lemma_find_module_bounds(mods: Seq<Module>, name: Seq<char>)
    ensures
        match find_module(mods, name) {
            Some(i) => 0 <= i < mods.len() && mods[i].name@ == name,
            None => forall|i: int| 0 <= i < mods.len() ==> (#[trigger] mods[i]).name@ != name,
        },
    decreases mods.len(),
{
    if mods.len() > 0 && mods[0].name@ != name {
        lemma_find_module_bounds(mods.skip(1), name);
        assert forall|i: int| 0 <= i < mods.len() implies find_module(mods, name) is None ==> (
        #[trigger] mods[i]).name@ != name by {
            if i > 0 {
                assert(mods.skip(1)[i - 1] == mods[i]);
            }
        }
        if find_module(mods.skip(1), name) is Some {
            let j = find_module(mods.skip(1), name)->Some_0;
            assert(mods.skip(1)[j] == mods[j + 1]);
        }
    }
}

proof fn lemma_find_module_of_first_match(mods: Seq<Module>, name: Seq<char>, i: int)
    requires
        0 <= i < mods.len(),
        mods[i].name@ == name,
        forall|j: int| 0 <= j < i ==> (#[trigger] mods[j]).name@ != name,
    ensures
        find_module(mods, name) == Some(i),
    decreases i,
{
    if i > 0 {
        assert forall|j: int| 0 <= j < i - 1 implies (#[trigger] mods.skip(1)[j]).name@ != name by {
            assert(mods.skip(1)[j] == mods[j + 1]);
        }
        assert(mods.skip(1)[i - 1] == mods[i]);
        lemma_find_module_of_first_match(mods.skip(1), name, i - 1);
    }
}

impl Program {
    /// Every loaded module's label table matches its code.
    pub open spec fn wf(self) -> bool {
        forall|i: int| 0 <= i < self.modules@.len() ==> (#[trigger] self.modules@[i]).wf()
    }

    pub fn new() -> (p: Program)
        ensures
            p.modules@.len() == 0,
            p.wf(),
    {
        Program { modules: Vec::new() }
    }

    /// Registers a loaded module.
    pub fn add_module(&mut self, m: Module)
        requires
            m.wf(),
            old(self).wf(),
        ensures
            final(self).modules@ == old(self).modules@.push(m),
            final(self).wf(),
    {
        self.modules.push(m);
    }

    /// The index of the module with this name, if it is loaded.
    pub fn module_index(&self, name: &String) -> (r: Option<usize>)
        ensures
            match r {
                Some(i) => find_module(self.modules@, name@) == Some(i as int),
                None => find_module(self.modules@, name@) is None,
            },
    {
        let n = self.modules.len();
        for i in 0..n
            invariant
                n == self.modules.len(),
                forall|j: int| 0 <= j < i ==> (#[trigger] self.modules@[j]).name@ != name@,
            decreases n - i,
        {
            if self.modules[i].name == *name {
                proof {
                    lemma_find_module_of_first_match(self.modules@, name@, i as int);
                }
                return Some(i);
            }
        }
        proof {
            lemma_find_module_bounds(self.modules@, name@);
            if find_module(self.modules@, name@) is Some {
                let j = find_module(self.modules@, name@)->Some_0;
                assert(self.modules@[j].name@ == name@);
            }
        }
        None
    }
}

} // verus!
