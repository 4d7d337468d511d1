use vstd::prelude::*;
use crate::ir::Visibilty;
use crate::regalloc::{copy_allocations, Allocation};
use crate::target::TargetArch;

verus! {

/// One assembled instruction: a mnemonic and its operands.
#[derive(Debug, PartialEq, Eq)]
pub struct AssemblyInst {
    /// The mnemonic
    pub opcode: String,
    /// The operands, in printed order
    pub ops: Vec<Allocation>,
}

/// The contents of an instruction.
pub struct AsmView {
    pub opcode: Seq<char>,
    pub ops: Seq<Allocation>,
}

impl View for AssemblyInst {
    type V = AsmView;

    open spec fn view(&self) -> AsmView {
        AsmView { opcode: self.opcode@, ops: self.ops@ }
    }
}

/// The contents of a list of instructions.
pub open spec fn insts_view(s: Seq<AssemblyInst>) -> Seq<AsmView> {
    s.map_values(|a: AssemblyInst| a@)
}

impl Clone for AssemblyInst {
    fn clone(&self) -> (r: Self)
        ensures
            r@ == self@,
    {
        AssemblyInst { opcode: self.opcode.clone(), ops: copy_allocations(&self.ops) }
    }
}

impl AssemblyInst {
    /// Creates an instruction without operands
    pub fn with0(opcode: &str) -> (r: Self)
        ensures
            r@ == (AsmView { opcode: opcode@, ops: seq![] }),
    {
        let r = AssemblyInst { opcode: opcode.to_string(), ops: Vec::new() };
        assert(r.ops@ =~= seq![]);
        r
    }

    /// Creates an instruction with one operand
    pub fn with1(opcode: &str, op0: &Allocation) -> (r: Self)
        ensures
            r@ == (AsmView { opcode: opcode@, ops: seq![*op0] }),
    {
        let r = AssemblyInst { opcode: opcode.to_string(), ops: vec![*op0] };
        assert(r.ops@ =~= seq![*op0]);
        r
    }

    /// Creates an instruction with two operands
    pub fn with2(opcode: &str, op0: &Allocation, op1: &Allocation) -> (r: Self)
        ensures
            r@ == (AsmView { opcode: opcode@, ops: seq![*op0, *op1] }),
    {
        let r = AssemblyInst { opcode: opcode.to_string(), ops: vec![*op0, *op1] };
        assert(r.ops@ =~= seq![*op0, *op1]);
        r
    }

    /// Creates an instruction with three operands
    pub fn with3(opcode: &str, op0: &Allocation, op1: &Allocation, op2: &Allocation) -> (r: Self)
        ensures
            r@ == (AsmView { opcode: opcode@, ops: seq![*op0, *op1, *op2] }),
    {
        let r = AssemblyInst { opcode: opcode.to_string(), ops: vec![*op0, *op1, *op2] };
        assert(r.ops@ =~= seq![*op0, *op1, *op2]);
        r
    }

    /// Creates an instruction with any number of operands
    pub fn withn(opcode: &str, ops: Vec<&Allocation>) -> (r: Self)
        ensures
            r.opcode@ == opcode@,
            r.ops@.len() == ops@.len(),
            forall|i: int| 0 <= i < ops@.len() ==> r.ops@[i] == *ops@[i],
    {
        let mut out: Vec<Allocation> = Vec::new();
        let mut i: usize = 0;
        while i < ops.len()
            invariant
                i <= ops@.len(),
                out@.len() == i,
                forall|j: int| 0 <= j < i ==> out@[j] == *ops@[j],
            decreases ops@.len() - i,
        {
            out.push(*ops[i]);
            i = i + 1;
        }
        AssemblyInst { opcode: opcode.to_string(), ops: out }
    }
}

/// An emitted group of instructions with the dump of the IR node that produced it.
#[derive(Debug, PartialEq, Eq)]
pub struct CommentedInst {
    /// The instructions
    pub insts: Vec<AssemblyInst>,
    /// The dump of the node
    pub comment: String,
}

/// A constant of a function.
#[derive(Debug, PartialEq, Eq)]
pub struct Constant {
    /// The bytes of the constant
    pub bytes: Vec<u8>,
    /// The id the instructions use for it
    pub id: usize,
}

/// The assembly of one function.
#[derive(Debug, PartialEq, Eq)]
pub struct FuncAsm {
    /// The instructions
    pub insts: Vec<AssemblyInst>,
    /// The constants the function requires
    pub consts: Vec<Constant>,
    /// The instructions grouped by the IR node they came from, when asked for
    pub meta_insts: Vec<CommentedInst>,
    /// The symbol name
    pub name: String,
    /// The visibility of the symbol
    pub scope: Visibilty,
}

impl FuncAsm {
    /// Creates an empty record
    pub fn new(name: String, scope: &Visibilty) -> (r: Self)
        ensures
            r.insts@.len() == 0,
            r.consts@.len() == 0,
            r.meta_insts@.len() == 0,
            r.name == name,
            r.scope == *scope,
    {
        FuncAsm { insts: Vec::new(), consts: Vec::new(), meta_insts: Vec::new(), name, scope: *scope }
    }

    /// Appends instructions
    pub fn add(&mut self, inst: &[AssemblyInst])
        ensures
            insts_view(final(self).insts@) == insts_view(old(self).insts@) + insts_view(inst@),
            final(self).consts == old(self).consts,
            final(self).meta_insts == old(self).meta_insts,
            final(self).name == old(self).name,
            final(self).scope == old(self).scope,
    {
        let ghost start = self.insts@;
        let mut i: usize = 0;
        while i < inst.len()
            invariant
                i <= inst@.len(),
                insts_view(self.insts@) == insts_view(start) + insts_view(inst@.take(i as int)),
                self.consts == old(self).consts,
                self.meta_insts == old(self).meta_insts,
                self.name == old(self).name,
                self.scope == old(self).scope,
            decreases inst@.len() - i,
        {
            let c = inst[i].clone();
            let ghost before = self.insts@;
            self.insts.push(c);
            i = i + 1;
            assert(insts_view(inst@.take(i as int)) =~= insts_view(inst@.take(i - 1)).push(inst@[i - 1]@));
            assert(insts_view(self.insts@) =~= insts_view(before).push(c@));
            assert(insts_view(self.insts@) =~= insts_view(start) + insts_view(inst@.take(i as int)));
        }
        assert(inst@.take(inst@.len() as int) =~= inst@);
    }

    /// Appends a constant
    pub fn add_const(&mut self, c: Constant)
        ensures
            final(self).consts@ == old(self).consts@.push(c),
            final(self).insts == old(self).insts,
            final(self).meta_insts == old(self).meta_insts,
            final(self).name == old(self).name,
            final(self).scope == old(self).scope,
    {
        self.consts.push(c);
    }
}

/// The result of compiling a module for one architecture.
#[derive(Debug, PartialEq, Eq)]
pub struct Compilation {
    /// The functions, in module order
    pub funcs: Vec<FuncAsm>,
    /// The architecture compiled for
    pub arch: TargetArch,
}

impl Compilation {
    /// Creates an empty result
    pub fn new(arch: TargetArch) -> (r: Self)
        ensures
            r.funcs@.len() == 0,
            r.arch == arch,
    {
        Compilation { funcs: Vec::new(), arch }
    }

    /// Appends the assembly of a function
    pub fn add(&mut self, func: FuncAsm)
        ensures
            final(self).funcs@ == old(self).funcs@.push(func),
            final(self).arch == old(self).arch,
    {
        self.funcs.push(func);
    }
}

} // verus!
