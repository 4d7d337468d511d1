use vstd::prelude::*;
use crate::assembly::{insts_view, AsmView, AssemblyInst, Compilation, FuncAsm};
use crate::error::CodegenError;
use crate::inst_selec::lowered_all;
use crate::ir::{Function, IrNode, IrOpcode, IrOperand, Visibilty};
use crate::module::Module;
use crate::pattern::{accepts, decode_spec, decodes_at, first_accepted, window, PatternView};
use crate::regalloc::{AllocatedIrNode, Allocation, NodeView};
use crate::target::{spec_num_for_arg, spec_ret_reg, spec_table, ArchBackend, TargetArch};
use crate::ty::TypeMetadata;

verus! {

/// Whether `nodes` is a disassembly of `insts` for `arch`: lowering the nodes one after the
/// other gives back exactly the instructions.
pub open spec fn disassembly_of(arch: TargetArch, insts: Seq<AssemblyInst>, nodes: Seq<AllocatedIrNode>) -> bool {
    lowered_all(spec_table(arch), nodes) == Some(insts_view(insts))
}

/// The contents of a list of allocated nodes.
pub open spec fn node_views(nodes: Seq<AllocatedIrNode>) -> Seq<NodeView> {
    nodes.map_values(|n: AllocatedIrNode| n@)
}

/// The readings taken from position `pos` to the end: at each position, the reading of the
/// pattern that is taken there, after which reading goes on past the instructions it covers;
/// `None` when at some position no pattern's reading is taken.
pub open spec fn readings_from(arch: TargetArch, insts: Seq<AssemblyInst>, pos: int) -> Option<Seq<NodeView>>
    decreases insts.len() - pos,
{
    if pos < 0 || pos >= insts.len() {
        Some(Seq::empty())
    } else {
        let w = window(insts, pos);
        let pats = spec_table(arch);
        if exists|i: int, l: int| first_accepted(pats, w, i, l) {
            let (i, l) = choose|i: int, l: int| first_accepted(pats, w, i, l);
            match readings_from(arch, insts, pos + l) {
                Some(rest) => Some(seq![decode_spec(pats[i], w).unwrap()] + rest),
                None => None,
            }
        } else {
            None
        }
    }
}

/// At most one pattern reading is taken at a position.
proof fn lemma_first_accepted_unique(pats: Seq<PatternView>, w: Seq<AsmView>, i: int, l: int, i2: int, l2: int)
    requires
        first_accepted(pats, w, i, l),
        first_accepted(pats, w, i2, l2),
    ensures
        i == i2 && l == l2,
{
    assert(accepts(pats, w, i2, l2));
    assert(accepts(pats, w, i, l));
}

/// `done` followed by what `rest` holds, if anything.
pub open spec fn then_readings(done: Seq<NodeView>, rest: Option<Seq<NodeView>>) -> Option<Seq<NodeView>> {
    match rest {
        Some(r) => Some(done + r),
        None => None,
    }
}

/// Reads a whole instruction list back into allocated nodes, taking at each position the
/// reading that `disasm_inst` takes. Succeeds exactly when every position reached has one;
/// the nodes then lower back to exactly the instructions.
pub fn disassemble(back: &ArchBackend, insts: &Vec<AssemblyInst>) -> (r: Result<Vec<AllocatedIrNode>, CodegenError>)
    ensures
        insts@.len() == 0 ==> r == Err::<Vec<AllocatedIrNode>, CodegenError>(CodegenError::EmptyFunction),
        insts@.len() > 0 ==> (r is Ok <==> readings_from(back.arch, insts@, 0) is Some),
        r is Ok ==> Some(node_views(r.unwrap()@)) == readings_from(back.arch, insts@, 0),
        r is Ok ==> disassembly_of(back.arch, insts@, r.unwrap()@),
        r matches Err(e) ==> (e == CodegenError::EmptyFunction || e == CodegenError::UnsupportedInstruction),
        insts@.len() > 0 && r is Err ==> r == Err::<Vec<AllocatedIrNode>, CodegenError>(CodegenError::UnsupportedInstruction),
{
    if insts.len() == 0 {
        return Err(CodegenError::EmptyFunction);
    }
    let ghost pats = spec_table(back.arch);
    let mut nodes: Vec<AllocatedIrNode> = Vec::new();
    let mut pos: usize = 0;
    proof {
        assert(insts_view(insts@.take(0)) =~= Seq::empty());
        assert(node_views(nodes@) =~= Seq::<NodeView>::empty());
        assert(then_readings(node_views(nodes@), readings_from(back.arch, insts@, 0)) =~= readings_from(back.arch, insts@, 0));
    }
    while pos < insts.len()
        invariant
            pats == spec_table(back.arch),
            pos <= insts@.len(),
            lowered_all(pats, nodes@) == Some(insts_view(insts@.take(pos as int))),
            readings_from(back.arch, insts@, 0) == then_readings(node_views(nodes@), readings_from(back.arch, insts@, pos as int)),
        decreases insts@.len() - pos,
    {
        match back.disasm_inst(insts, pos) {
            Ok((used, n)) => {
                let ghost before = nodes@;
                let ghost w = window(insts@, pos as int);
                proof {
                    let i = choose|i: int|
                        #[trigger] first_accepted(pats, w, i, used as int) && n@ == decode_spec(pats[i], w).unwrap();
                    assert(exists|i2: int, l2: int| first_accepted(pats, w, i2, l2));
                    let (ci, cl) = choose|i2: int, l2: int| first_accepted(pats, w, i2, l2);
                    lemma_first_accepted_unique(pats, w, i, used as int, ci, cl);
                    match readings_from(back.arch, insts@, pos + used) {
                        Some(rest) => {
                            assert(readings_from(back.arch, insts@, pos as int) == Some(seq![n@] + rest));
                            assert(node_views(before.push(n)) =~= node_views(before) + seq![n@]);
                            assert(node_views(before) + (seq![n@] + rest) =~= node_views(before.push(n)) + rest);
                        },
                        None => {
                            assert(readings_from(back.arch, insts@, pos as int) is None);
                        },
                    }
                }
                nodes.push(n);
                proof {
                    assert(decodes_at(pats, insts@, pos as int, used as int, n));
                    assert(nodes@.drop_last() =~= before);
                    assert(insts_view(insts@.take(pos + used)) =~= insts_view(insts@.take(pos as int))
                        + insts_view(insts@.subrange(pos as int, pos + used)));
                }
                pos = pos + used;
            },
            Err(e) => {
                proof {
                    let w = window(insts@, pos as int);
                    if exists|i2: int, l2: int| first_accepted(pats, w, i2, l2) {
                        let (ci, cl) = choose|i2: int, l2: int| first_accepted(pats, w, i2, l2);
                        assert(accepts(pats, w, ci, cl));
                    }
                    assert(readings_from(back.arch, insts@, pos as int) is None);
                }
                return Err(e);
            },
        }
    }
    assert(insts@.take(insts@.len() as int) =~= insts@);
    assert(node_views(nodes@) + Seq::<NodeView>::empty() =~= node_views(nodes@));
    Ok(nodes)
}

/// The last node before position `k` that writes `a`.
pub open spec fn writer_before(nodes: Seq<NodeView>, k: int, a: Allocation) -> Option<int>
    decreases k,
{
    if k <= 0 {
        None
    } else if nodes[k - 1].alloc == Some(a) {
        Some(k - 1)
    } else {
        writer_before(nodes, k - 1, a)
    }
}

/// The IR operand that reading `a` at position `k` stands for: the value last written there,
/// a literal for an immediate, else the argument passed there.
pub open spec fn dealloc_op(arch: TargetArch, nodes: Seq<NodeView>, k: int, a: Allocation) -> Option<IrOperand> {
    match writer_before(nodes, k, a) {
        Some(j) => Some(IrOperand::Out(j as usize)),
        None => match a {
            Allocation::Imm { num, ty } => Some(IrOperand::ConstNum { num, ty }),
            _ => match spec_num_for_arg(arch, a) {
                Some(n) => Some(IrOperand::Arg { num: n, ty: TypeMetadata::Int64 }),
                None => None,
            },
        },
    }
}

/// The operands of the IR node at position `k`; a return without operands reads the return
/// register when a value was written there.
pub open spec fn dealloc_ops(arch: TargetArch, nodes: Seq<NodeView>, k: int) -> Option<Seq<IrOperand>> {
    let n = nodes[k];
    if n.opcode == IrOpcode::Ret && n.ops.len() == 0 {
        match writer_before(nodes, k, Allocation::Register { id: spec_ret_reg(arch), ty: TypeMetadata::Int64 }) {
            Some(j) => Some(seq![IrOperand::Out(j as usize)]),
            None => Some(Seq::empty()),
        }
    } else if forall|i: int| 0 <= i < n.ops.len() ==> (#[trigger] dealloc_op(arch, nodes, k, n.ops[i])) is Some {
        Some(n.ops.map_values(|a: Allocation| dealloc_op(arch, nodes, k, a).unwrap()))
    } else {
        None
    }
}

/// Whether every node's operands can be turned back into IR operands.
pub open spec fn deallocatable(arch: TargetArch, nodes: Seq<NodeView>) -> bool {
    forall|k: int| 0 <= k < nodes.len() ==> (#[trigger] dealloc_ops(arch, nodes, k)) is Some
}

/// Whether `ir` is the IR read back from `nodes`: same opcodes, output flags and types,
/// operands from `dealloc_ops`.
pub open spec fn dealloc_of(arch: TargetArch, nodes: Seq<NodeView>, ir: Seq<IrNode>) -> bool {
    &&& ir.len() == nodes.len()
    &&& forall|k: int|
        0 <= k < nodes.len() ==> {
            let m = #[trigger] ir[k];
            &&& m.opcode == nodes[k].opcode
            &&& m.has_out == nodes[k].has_out
            &&& m.ty == nodes[k].ty
            &&& Some(m.ops@) == dealloc_ops(arch, nodes, k)
        }
}

fn find_writer(nodes: &Vec<AllocatedIrNode>, k: usize, a: Allocation) -> (r: Option<usize>)
    requires
        k <= nodes@.len(),
    ensures
        match writer_before(node_views(nodes@), k as int, a) {
            Some(j) => r == Some(j as usize),
            None => r is None,
        },
{
    let mut j: usize = k;
    while j > 0
        invariant
            j <= k <= nodes@.len(),
            writer_before(node_views(nodes@), k as int, a) == writer_before(node_views(nodes@), j as int, a),
        decreases j,
    {
        if nodes[j - 1].alloc == Some(a) {
            return Some(j - 1);
        }
        j = j - 1;
    }
    None
}

/// Turns allocated nodes back into IR nodes.
pub struct DeRegAlloc {
    allocated_ir: Vec<AllocatedIrNode>,
    ir: Vec<IrNode>,
    target: TargetArch,
}

impl DeRegAlloc {
    /// The nodes read.
    pub closed spec fn input(&self) -> Seq<AllocatedIrNode> {
        self.allocated_ir@
    }

    /// The IR produced so far.
    pub closed spec fn output(&self) -> Seq<IrNode> {
        self.ir@
    }

    /// The architecture the allocations belong to.
    pub closed spec fn arch(&self) -> TargetArch {
        self.target
    }

    /// Creates a reader for `allocated_ir`
    pub fn new(allocated_ir: Vec<AllocatedIrNode>, target: TargetArch) -> (r: Self)
        ensures
            r.input() == allocated_ir@,
            r.output().len() == 0,
            r.arch() == target,
    {
        DeRegAlloc { allocated_ir, ir: Vec::new(), target }
    }

    /// Reads the nodes back into IR: the node at position `k` becomes arena index `k`, and
    /// each operand reads the last earlier node that wrote its location, or a literal, or
    /// the argument passed there. Fails, changing nothing, when some operand is none of these.
    pub fn dealloc(&mut self) -> (r: Result<(), CodegenError>)
        ensures
            r is Ok <==> deallocatable(old(self).arch(), node_views(old(self).input())),
            r is Ok ==> dealloc_of(old(self).arch(), node_views(old(self).input()), final(self).output()),
            r is Err ==> r == Err::<(), CodegenError>(CodegenError::UnresolvedOperand) && final(self).output() == old(self).output(),
            final(self).input() == old(self).input(),
            final(self).arch() == old(self).arch(),
    {
        let back = self.target.backend();
        let ghost nodes = node_views(self.allocated_ir@);
        let ghost arch = self.target;
        let mut out: Vec<IrNode> = Vec::new();
        let mut k: usize = 0;
        while k < self.allocated_ir.len()
            invariant
                *self == *old(self),
                nodes == node_views(self.allocated_ir@),
                arch == self.target,
                back.arch == arch,
                k <= nodes.len(),
                out@.len() == k,
                forall|j: int| 0 <= j < k ==> (#[trigger] dealloc_ops(arch, nodes, j)) is Some,
                forall|j: int|
                    0 <= j < k ==> {
                        let m = #[trigger] out@[j];
                        &&& m.opcode == nodes[j].opcode
                        &&& m.has_out == nodes[j].has_out
                        &&& m.ty == nodes[j].ty
                        &&& Some(m.ops@) == dealloc_ops(arch, nodes, j)
                    },
            decreases nodes.len() - k,
        {
            let inst = &self.allocated_ir[k];
            let mut ops: Vec<IrOperand> = Vec::new();
            if inst.opcode == IrOpcode::Ret && inst.ops.len() == 0 {
                let ret = back.ret_reg();
                match find_writer(&self.allocated_ir, k, ret) {
                    Some(j) => ops.push(IrOperand::Out(j)),
                    None => {},
                }
                proof {
                    assert(Some(ops@) =~= dealloc_ops(arch, nodes, k as int));
                }
            } else {
                let mut i: usize = 0;
                while i < inst.ops.len()
                    invariant
                        *self == *old(self),
                        nodes == node_views(self.allocated_ir@),
                        arch == self.target,
                        back.arch == arch,
                        k < nodes.len(),
                        inst@ == nodes[k as int],
                        *inst == self.allocated_ir@[k as int],
                        i <= inst.ops@.len(),
                        ops@.len() == i,
                        forall|t: int| 0 <= t < i ==> (#[trigger] dealloc_op(arch, nodes, k as int, inst.ops@[t])) is Some,
                        forall|t: int| 0 <= t < i ==> #[trigger] ops@[t] == dealloc_op(arch, nodes, k as int, inst.ops@[t]).unwrap(),
                    decreases inst.ops@.len() - i,
                {
                    let a = inst.ops[i];
                    let op = match find_writer(&self.allocated_ir, k, a) {
                        Some(j) => IrOperand::Out(j),
                        None => match a {
                            Allocation::Imm { num, ty } => IrOperand::ConstNum { num, ty },
                            _ => match back.num_for_arg(&a) {
                                Some(n) => IrOperand::Arg { num: n, ty: TypeMetadata::Int64 },
                                None => {
                                    proof {
                                        assert(dealloc_op(arch, nodes, k as int, inst.ops@[i as int]) is None);
                                        assert(dealloc_ops(arch, nodes, k as int) is None);
                                        assert(!deallocatable(arch, nodes));
                                    }
                                    return Err(CodegenError::UnresolvedOperand);
                                },
                            },
                        },
                    };
                    ops.push(op);
                    i = i + 1;
                }
                proof {
                    assert(ops@ =~= inst.ops@.map_values(|a: Allocation| dealloc_op(arch, nodes, k as int, a).unwrap()));
                }
            }
            out.push(IrNode { opcode: inst.opcode, ops, has_out: inst.has_out, ty: inst.ty });
            k = k + 1;
        }
        self.ir = out;
        Ok(())
    }

    /// Returns the IR read back
    pub fn ir(&self) -> (r: &Vec<IrNode>)
        ensures
            r@ == self.output(),
    {
        &self.ir
    }

    /// Returns the IR read back, consuming the reader
    pub fn ir_owned(self) -> (r: Vec<IrNode>)
        ensures
            r@ == self.output(),
    {
        self.ir
    }
}

/// One past the largest argument number that an operand reads, or zero.
pub open spec fn op_arity(op: IrOperand) -> nat
    decreases op,
{
    match op {
        IrOperand::Arg { num, .. } => num as nat + 1,
        IrOperand::Drop(inner) => op_arity(*inner),
        _ => 0,
    }
}

pub open spec fn ops_arity(ops: Seq<IrOperand>) -> nat
    decreases ops.len(),
{
    if ops.len() == 0 {
        0
    } else {
        let a = ops_arity(ops.drop_last());
        let b = op_arity(ops.last());
        if a >= b { a } else { b }
    }
}

/// The number of parameters a body reads: one past the largest argument number used.
pub open spec fn arity(ir: Seq<IrNode>) -> nat
    decreases ir.len(),
{
    if ir.len() == 0 {
        0
    } else {
        let a = arity(ir.drop_last());
        let b = ops_arity(ir.last().ops@);
        if a >= b { a } else { b }
    }
}

/// The type of what the last return with an operand returns.
pub open spec fn returned_type(ir: Seq<IrNode>, nodes: Seq<IrNode>) -> Option<TypeMetadata>
    decreases ir.len(),
{
    if ir.len() == 0 {
        None
    } else if ir.last().opcode == IrOpcode::Ret && ir.last().ops@.len() > 0 {
        ir.last().ops@[0].spec_ty(nodes)
    } else {
        returned_type(ir.drop_last(), nodes)
    }
}

fn op_arity_exec(op: &IrOperand) -> (r: Option<usize>)
    ensures
        match r {
            Some(n) => n == op_arity(*op),
            None => op_arity(*op) > usize::MAX,
        },
    decreases op,
{
    match op {
        IrOperand::Arg { num, .. } => if *num < usize::MAX {
            Some(*num + 1)
        } else {
            None
        },
        IrOperand::Drop(inner) => op_arity_exec(&**inner),
        _ => Some(0),
    }
}

/// Reads a function's type back from its IR.
pub struct TypeExtractor {
    args: Vec<TypeMetadata>,
    ret: Option<TypeMetadata>,
}

impl TypeExtractor {
    /// The parameter types found.
    pub closed spec fn arg_types(&self) -> Seq<TypeMetadata> {
        self.args@
    }

    /// The return type found.
    pub closed spec fn ret_type(&self) -> Option<TypeMetadata> {
        self.ret
    }

    /// Creates an extractor that has found nothing yet
    pub fn new() -> (r: Self)
        ensures
            r.arg_types().len() == 0,
            r.ret_type() is None,
    {
        TypeExtractor { args: Vec::new(), ret: None }
    }

    /// Reads the parameters and the return type of the body `ir`: as many 64-bit parameters
    /// as one past the largest argument number read, and the type of what the last return
    /// returns. Fails when an argument number has no successor.
    pub fn extract(&mut self, ir: &Vec<IrNode>) -> (r: Result<(), CodegenError>)
        ensures
            r is Ok <==> arity(ir@) <= usize::MAX,
            r is Ok ==> final(self).arg_types() == Seq::new(arity(ir@), |i: int| TypeMetadata::Int64),
            r is Ok ==> final(self).ret_type() == returned_type(ir@, ir@),
            r is Err ==> r == Err::<(), CodegenError>(CodegenError::UnresolvedOperand) && *final(self) == *old(self),
    {
        let mut count: usize = 0;
        let mut ret: Option<TypeMetadata> = None;
        let mut k: usize = 0;
        while k < ir.len()
            invariant
                k <= ir@.len(),
                count == arity(ir@.take(k as int)),
                ret == returned_type(ir@.take(k as int), ir@),
            decreases ir@.len() - k,
        {
            let node = &ir[k];
            let mut i: usize = 0;
            let mut node_count: usize = 0;
            while i < node.ops.len()
                invariant
                    k < ir@.len(),
                    *node == ir@[k as int],
                    i <= node.ops@.len(),
                    node_count == ops_arity(node.ops@.take(i as int)),
                decreases node.ops@.len() - i,
            {
                match op_arity_exec(&node.ops[i]) {
                    Some(n) => {
                        if n > node_count {
                            node_count = n;
                        }
                    },
                    None => {
                        proof {
                            let t = node.ops@.take(i + 1);
                            assert(t.drop_last() =~= node.ops@.take(i as int));
                            assert(t.last() == node.ops@[i as int]);
                            assert(ops_arity(t) > usize::MAX);
                            lemma_ops_arity_prefix(node.ops@, i + 1);
                            let p = ir@.take(k + 1);
                            assert(p.drop_last() =~= ir@.take(k as int));
                            assert(p.last() == ir@[k as int]);
                            assert(arity(p) > usize::MAX);
                            lemma_arity_prefix(ir@, k + 1);
                        }
                        return Err(CodegenError::UnresolvedOperand);
                    },
                }
                i = i + 1;
                assert(node.ops@.take(i as int).drop_last() =~= node.ops@.take(i - 1));
            }
            assert(node.ops@.take(node.ops@.len() as int) =~= node.ops@);
            if node_count > count {
                count = node_count;
            }
            if node.opcode == IrOpcode::Ret && node.ops.len() > 0 {
                ret = node.ops[0].get_ty(ir);
            }
            k = k + 1;
            assert(ir@.take(k as int).drop_last() =~= ir@.take(k - 1));
        }
        assert(ir@.take(ir@.len() as int) =~= ir@);
        let mut args: Vec<TypeMetadata> = Vec::new();
        let mut a: usize = 0;
        while a < count
            invariant
                a <= count,
                args@ == Seq::new(a as nat, |i: int| TypeMetadata::Int64),
            decreases count - a,
        {
            args.push(TypeMetadata::Int64);
            a = a + 1;
            assert(args@ =~= Seq::new(a as nat, |i: int| TypeMetadata::Int64));
        }
        self.args = args;
        self.ret = ret;
        Ok(())
    }

    /// Returns the parameter types found
    pub fn args(&self) -> (r: &Vec<TypeMetadata>)
        ensures
            r@ == self.arg_types(),
    {
        &self.args
    }

    /// Returns the return type found
    pub fn ret(&self) -> (r: Option<TypeMetadata>)
        ensures
            r == self.ret_type(),
    {
        self.ret
    }
}

proof fn lemma_ops_arity_prefix(ops: Seq<IrOperand>, j: int)
    requires
        0 <= j <= ops.len(),
    ensures
        ops_arity(ops.take(j)) <= ops_arity(ops),
    decreases ops.len(),
{
    if j < ops.len() {
        assert(ops.drop_last().take(j) =~= ops.take(j));
        lemma_ops_arity_prefix(ops.drop_last(), j);
    } else {
        assert(ops.take(j) =~= ops);
    }
}

proof fn lemma_arity_prefix(ir: Seq<IrNode>, j: int)
    requires
        0 <= j <= ir.len(),
    ensures
        arity(ir.take(j)) <= arity(ir),
    decreases ir.len(),
{
    if j < ir.len() {
        assert(ir.drop_last().take(j) =~= ir.take(j));
        lemma_arity_prefix(ir.drop_last(), j);
    } else {
        assert(ir.take(j) =~= ir);
    }
}

/// One past the largest argument number read by the IR that the first `k` readings
/// de-allocate to.
pub open spec fn read_arity(arch: TargetArch, nodes: Seq<NodeView>, k: int) -> nat
    decreases k,
{
    if k <= 0 {
        0
    } else {
        let a = read_arity(arch, nodes, k - 1);
        let b = ops_arity(dealloc_ops(arch, nodes, k - 1).unwrap());
        if a >= b { a } else { b }
    }
}

proof fn lemma_read_arity(arch: TargetArch, nodes: Seq<NodeView>, ir: Seq<IrNode>, k: int)
    requires
        dealloc_of(arch, nodes, ir),
        0 <= k <= ir.len(),
    ensures
        arity(ir.take(k)) == read_arity(arch, nodes, k),
    decreases k,
{
    if k > 0 {
        lemma_read_arity(arch, nodes, ir, k - 1);
        assert(ir.take(k).drop_last() =~= ir.take(k - 1));
        assert(ir.take(k).last() == ir[k - 1]);
        let _ = ir[k - 1];
    }
}

/// Why reading `func` back fails, if it does: no instructions; no pattern reading taken at
/// some position; or the readings cannot be de-allocated, or read an argument number that
/// has no successor.
pub open spec fn decompile_error(arch: TargetArch, func: FuncAsm) -> Option<CodegenError> {
    if func.insts@.len() == 0 {
        Some(CodegenError::EmptyFunction)
    } else {
        match readings_from(arch, func.insts@, 0) {
            None => Some(CodegenError::UnsupportedInstruction),
            Some(rs) => if !deallocatable(arch, rs) || read_arity(arch, rs, rs.len() as int) > usize::MAX {
                Some(CodegenError::UnresolvedOperand)
            } else {
                None
            },
        }
    }
}

/// The first function of `funcs` that cannot be read back, if any.
pub open spec fn first_decompile_error(arch: TargetArch, funcs: Seq<FuncAsm>, i: int) -> bool {
    &&& 0 <= i < funcs.len()
    &&& decompile_error(arch, funcs[i]) is Some
    &&& forall|j: int| 0 <= j < i ==> (#[trigger] decompile_error(arch, funcs[j])) is None
}

/// Whether `f` is the function read back from `func`: its body lists, in order, the IR read
/// back from a disassembly of the instructions (one that lowers back to exactly them), and
/// its signature is the one extracted from that IR.
pub open spec fn decompiled_from(arch: TargetArch, func: FuncAsm, f: Function) -> bool {
    &&& exists|nodes: Seq<AllocatedIrNode>| disassembly_of(arch, func.insts@, nodes) && dealloc_of(arch, node_views(nodes), f.nodes@)
    &&& f.wf()
    &&& f.ir@ == Seq::new(f.nodes@.len(), |i: int| i as usize)
    &&& f.name@ == func.name@
    &&& f.visibility == func.scope
    &&& f.args@ == Seq::new(arity(f.nodes@), |i: int| TypeMetadata::Int64)
    &&& f.ret == returned_type(f.nodes@, f.nodes@)
}

/// Turns a compilation back into IR functions.
pub struct DecompilationHelper {
    compilation: Compilation,
}

impl DecompilationHelper {
    /// The compilation read.
    pub closed spec fn source(&self) -> &Compilation {
        &self.compilation
    }

    /// Creates a helper for `compilation`
    pub fn new(compilation: Compilation) -> (r: Self)
        ensures
            *r.source() == compilation,
    {
        DecompilationHelper { compilation }
    }

    /// Constants are not carried by the instructions, so there are no symbols to add: the
    /// module stays as it is.
    pub fn add_symbols(&self, module: &mut Module)
        ensures
            *final(module) == *old(module),
    {
    }

    /// Reads one function back: disassembly, de-allocation, type extraction. The body lists
    /// the read nodes in order, and lowering the disassembled nodes gives back exactly the
    /// function's instructions.
    pub fn add_func(&self, func: &FuncAsm, target: &TargetArch) -> (r: Result<Function, CodegenError>)
        ensures
            r is Ok <==> decompile_error(*target, *func) is None,
            r matches Err(e) ==> decompile_error(*target, *func) == Some(e),
            r is Ok ==> decompiled_from(*target, *func, r.unwrap()),
    {
        let back = target.backend();
        let allocated = match disassemble(&back, &func.insts) {
            Ok(a) => a,
            Err(e) => {
                return Err(e);
            },
        };
        let ghost disassembled = allocated@;
        let ghost rs = node_views(allocated@);
        let mut deregalloc = DeRegAlloc::new(allocated, *target);
        match deregalloc.dealloc() {
            Ok(()) => {},
            Err(e) => {
                return Err(e);
            },
        }
        let nodes = deregalloc.ir_owned();
        proof {
            lemma_read_arity(*target, rs, nodes@, nodes@.len() as int);
            assert(nodes@.take(nodes@.len() as int) =~= nodes@);
        }
        let mut extractor = TypeExtractor::new();
        match extractor.extract(&nodes) {
            Ok(()) => {},
            Err(e) => {
                return Err(e);
            },
        }
        let mut ir: Vec<usize> = Vec::new();
        let mut k: usize = 0;
        while k < nodes.len()
            invariant
                k <= nodes@.len(),
                ir@ == Seq::new(k as nat, |i: int| i as usize),
            decreases nodes@.len() - k,
        {
            ir.push(k);
            k = k + 1;
            assert(ir@ =~= Seq::new(k as nat, |i: int| i as usize));
        }
        let mut args: Vec<TypeMetadata> = Vec::new();
        let found = extractor.args();
        let mut a: usize = 0;
        while a < found.len()
            invariant
                a <= found@.len(),
                args@ == found@.take(a as int),
            decreases found@.len() - a,
        {
            args.push(found[a]);
            a = a + 1;
            assert(args@ =~= found@.take(a as int));
        }
        assert(found@.take(found@.len() as int) =~= found@);
        let ret = extractor.ret();
        let f = Function { name: func.name.clone(), ret, args, nodes, ir, visibility: func.scope };
        proof {
            assert(disassembly_of(*target, func.insts@, disassembled));
        }
        Ok(f)
    }

    /// Reads every function of the compilation back and adds it to `module`, in order.
    /// Stops at the first function that cannot be read.
    pub fn add_funcs(&self, module: &mut Module) -> (r: Result<(), CodegenError>)
        ensures
            r is Ok <==> forall|i: int| 0 <= i < self.source().funcs@.len() ==> (#[trigger] decompile_error(
                self.source().arch,
                self.source().funcs@[i],
            )) is None,
            r matches Err(e) ==> exists|i: int|
                #[trigger] first_decompile_error(self.source().arch, self.source().funcs@, i)
                    && decompile_error(self.source().arch, self.source().funcs@[i]) == Some(e),
            r is Ok ==> final(module).funcs@.len() == old(module).funcs@.len() + self.source().funcs@.len(),
            r is Ok ==> forall|i: int| 0 <= i < self.source().funcs@.len() ==>
                decompiled_from(self.source().arch, self.source().funcs@[i], #[trigger] final(module).funcs@[old(module).funcs@.len() + i]),
            forall|i: int| 0 <= i < old(module).funcs@.len() ==> #[trigger] final(module).funcs@[i] == old(module).funcs@[i],
            final(module).opts_to_run@ == old(module).opts_to_run@,
    {
        let ghost start = module.funcs@.len();
        let mut i: usize = 0;
        while i < self.compilation.funcs.len()
            invariant
                i <= self.compilation.funcs@.len(),
                module.funcs@.len() == start + i,
                module.opts_to_run@ == old(module).opts_to_run@,
                start == old(module).funcs@.len(),
                forall|j: int| 0 <= j < i ==>
                    decompiled_from(self.compilation.arch, self.compilation.funcs@[j], #[trigger] module.funcs@[start + j]),
                forall|j: int| 0 <= j < start ==> #[trigger] module.funcs@[j] == old(module).funcs@[j],
                forall|j: int| 0 <= j < i ==> (#[trigger] decompile_error(self.compilation.arch, self.compilation.funcs@[j])) is None,
            decreases self.compilation.funcs@.len() - i,
        {
            match self.add_func(&self.compilation.funcs[i], &self.compilation.arch) {
                Ok(f) => {
                    module.add_func(f);
                },
                Err(e) => {
                    proof {
                        assert(first_decompile_error(self.compilation.arch, self.compilation.funcs@, i as int));
                    }
                    return Err(e);
                },
            }
            i = i + 1;
        }
        Ok(())
    }
}

impl Module {
    /// Reads a compilation back into a module of IR functions.
    pub fn decompile_comp(compilation: Compilation) -> (r: Result<Module, CodegenError>)
        ensures
            r is Ok <==> forall|i: int| 0 <= i < compilation.funcs@.len() ==> (#[trigger] decompile_error(
                compilation.arch,
                compilation.funcs@[i],
            )) is None,
            r matches Err(e) ==> exists|i: int|
                #[trigger] first_decompile_error(compilation.arch, compilation.funcs@, i)
                    && decompile_error(compilation.arch, compilation.funcs@[i]) == Some(e),
            r is Ok ==> r.unwrap().funcs@.len() == compilation.funcs@.len(),
            r is Ok ==> forall|i: int| 0 <= i < compilation.funcs@.len() ==>
                decompiled_from(compilation.arch, compilation.funcs@[i], #[trigger] r.unwrap().funcs@[i]),
    {
        let decompiler = DecompilationHelper::new(compilation);
        let mut module = Module::new();
        decompiler.add_symbols(&mut module);
        match decompiler.add_funcs(&mut module) {
            Ok(()) => {},
            Err(e) => {
                return Err(e);
            },
        }
        assert forall|i: int| 0 <= i < compilation.funcs@.len() implies decompiled_from(
            compilation.arch,
            compilation.funcs@[i],
            #[trigger] module.funcs@[i],
        ) by {
            assert(module.funcs@[0 + i] == module.funcs@[i]);
        }
        Ok(module)
    }
}

} // verus!
