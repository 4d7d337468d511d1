use vstd::prelude::*;
use crate::assembly::{insts_view, AsmView, AssemblyInst, CommentedInst, FuncAsm};
use crate::error::CodegenError;
use crate::ir::IrOpcode;
use crate::pattern::lowered;
use crate::pattern::PatternView;
use crate::regalloc::{AllocatedIrNode, Allocation};
use crate::target::{spec_table, ArchBackend};
use crate::text::{decimal, push_decimal};
use vstd::string::StringExecFns;

verus! {

/// The instructions a list of allocated nodes lowers to, node after node; `None` when some
/// node has no pattern that applies.
pub open spec fn lowered_all(pats: Seq<PatternView>, nodes: Seq<AllocatedIrNode>) -> Option<Seq<AsmView>>
    decreases nodes.len(),
{
    if nodes.len() == 0 {
        Some(Seq::empty())
    } else {
        match (lowered_all(pats, nodes.drop_last()), lowered(pats, nodes.last()@)) {
            (Some(a), Some(b)) => Some(a + b),
            _ => None,
        }
    }
}

/// A prefix of a list that lowers also lowers.
pub proof fn lemma_lowered_all_prefix(pats: Seq<PatternView>, nodes: Seq<AllocatedIrNode>, j: int)
    requires
        0 <= j <= nodes.len(),
        lowered_all(pats, nodes) is Some,
    ensures
        lowered_all(pats, nodes.take(j)) is Some,
    decreases nodes.len(),
{
    if j < nodes.len() {
        assert(nodes.drop_last().take(j) =~= nodes.take(j));
        lemma_lowered_all_prefix(pats, nodes.drop_last(), j);
    } else {
        assert(nodes.take(j) =~= nodes);
    }
}

/// How an allocation is shown in a node dump.
pub open spec fn alloc_dump(a: Allocation) -> Seq<char> {
    match a {
        Allocation::Register { id, .. } => "reg("@ + decimal(id as nat) + ")"@,
        Allocation::Stack { slot, .. } => "stack("@ + decimal(slot as nat) + ")"@,
        Allocation::Imm { num, .. } => decimal(num as nat),
        Allocation::ConstUse { id } => "const("@ + decimal(id as nat) + ")"@,
    }
}

/// The lower-case name of an opcode.
pub open spec fn opcode_name(op: IrOpcode) -> Seq<char> {
    match op {
        IrOpcode::Add => "add"@,
        IrOpcode::Sub => "sub"@,
        IrOpcode::Ret => "ret"@,
        IrOpcode::Copy => "copy"@,
        IrOpcode::InstrincCall(_) => "getstackpointer"@,
    }
}

/// The dumps of allocations, separated by commas.
pub open spec fn dump_ops(ops: Seq<Allocation>) -> Seq<char>
    decreases ops.len(),
{
    if ops.len() == 0 {
        Seq::empty()
    } else if ops.len() == 1 {
        alloc_dump(ops[0])
    } else {
        dump_ops(ops.drop_last()) + ", "@ + alloc_dump(ops.last())
    }
}

/// The dump of an allocated node: `out = opcode op, op`.
pub open spec fn node_dump(n: AllocatedIrNode) -> Seq<char> {
    (match n.alloc {
        Some(a) => alloc_dump(a) + " = "@,
        None => Seq::empty(),
    }) + opcode_name(n.opcode) + " "@ + dump_ops(n.ops@)
}

fn push_alloc_dump(s: &mut String, a: &Allocation)
    ensures
        final(s)@ == old(s)@ + alloc_dump(*a),
{
    let ghost start = s@;
    match a {
        Allocation::Register { id, .. } => {
            s.append("reg(");
            push_decimal(s, *id as u128);
            s.append(")");
        },
        Allocation::Stack { slot, .. } => {
            s.append("stack(");
            push_decimal(s, *slot as u128);
            s.append(")");
        },
        Allocation::Imm { num, .. } => {
            push_decimal(s, *num as u128);
        },
        Allocation::ConstUse { id } => {
            s.append("const(");
            push_decimal(s, *id as u128);
            s.append(")");
        },
    }
    assert(s@ =~= start + alloc_dump(*a));
}

/// Returns the dump of an allocated node, as used for rich comments.
pub fn dump_node(n: &AllocatedIrNode) -> (r: String)
    ensures
        r@ == node_dump(*n),
{
    let mut s = String::new();
    if let Some(a) = &n.alloc {
        push_alloc_dump(&mut s, a);
        s.append(" = ");
    }
    let name = match n.opcode {
        IrOpcode::Add => "add",
        IrOpcode::Sub => "sub",
        IrOpcode::Ret => "ret",
        IrOpcode::Copy => "copy",
        IrOpcode::InstrincCall(_) => "getstackpointer",
    };
    s.append(name);
    s.append(" ");
    let ghost head = s@;
    let mut i: usize = 0;
    while i < n.ops.len()
        invariant
            i <= n.ops@.len(),
            s@ == head + dump_ops(n.ops@.take(i as int)),
        decreases n.ops@.len() - i,
    {
        if i > 0 {
            s.append(", ");
        }
        push_alloc_dump(&mut s, &n.ops[i]);
        i = i + 1;
        proof {
            let t = n.ops@.take(i as int);
            assert(t.drop_last() =~= n.ops@.take(i - 1));
            assert(s@ =~= head + dump_ops(t));
        }
    }
    assert(n.ops@.take(n.ops@.len() as int) =~= n.ops@);
    assert(s@ =~= node_dump(*n));
    s
}

/// Lowers the allocated nodes of one function into instructions.
pub struct InstSelector {
    ir: Vec<AllocatedIrNode>,
    backend: ArchBackend,
    rich_commenting: bool,
}

impl InstSelector {
    /// The nodes to lower.
    pub closed spec fn nodes(&self) -> Seq<AllocatedIrNode> {
        self.ir@
    }

    /// The backend lowered for.
    pub closed spec fn target(&self) -> ArchBackend {
        self.backend
    }

    /// Whether each node's instructions are also recorded with a dump of the node.
    pub closed spec fn rich(&self) -> bool {
        self.rich_commenting
    }

    /// Creates a selector for `ir`
    pub fn new(ir: Vec<AllocatedIrNode>, backend: &ArchBackend, rich_commenting: bool) -> (r: Self)
        ensures
            r.nodes() == ir@,
            r.target() == *backend,
            r.rich() == rich_commenting,
    {
        InstSelector { ir, backend: *backend, rich_commenting }
    }

    /// Appends the instructions of every node, in order, to `funcasm`. Fails exactly when
    /// some node has no pattern that applies; when rich commenting is on, each node's
    /// instructions are also recorded with the node's dump.
    pub fn run(&self, funcasm: &mut FuncAsm) -> (r: Result<(), CodegenError>)
        ensures
            match lowered_all(spec_table(self.target().arch), self.nodes()) {
                Some(s) => r is Ok && insts_view(final(funcasm).insts@) == insts_view(old(funcasm).insts@) + s,
                None => r == Err::<(), CodegenError>(CodegenError::UnsupportedOpcode),
            },
            self.rich() && r is Ok ==> final(funcasm).meta_insts@.len() == old(funcasm).meta_insts@.len() + self.nodes().len(),
            self.rich() && r is Ok ==> forall|k: int| 0 <= k < self.nodes().len() ==>
                (#[trigger] final(funcasm).meta_insts@[old(funcasm).meta_insts@.len() + k]).comment@ == node_dump(self.nodes()[k]),
            self.rich() && r is Ok ==> forall|k: int| 0 <= k < self.nodes().len() ==>
                Some(insts_view((#[trigger] final(funcasm).meta_insts@[old(funcasm).meta_insts@.len() + k]).insts@))
                    == lowered(spec_table(self.target().arch), self.nodes()[k]@),
            !self.rich() ==> final(funcasm).meta_insts == old(funcasm).meta_insts,
            final(funcasm).name == old(funcasm).name,
            final(funcasm).scope == old(funcasm).scope,
            final(funcasm).consts == old(funcasm).consts,
    {
        let ghost pats = spec_table(self.backend.arch);
        let ghost start = funcasm.insts@;
        let ghost meta_start = funcasm.meta_insts@;
        let mut i: usize = 0;
        while i < self.ir.len()
            invariant
                pats == spec_table(self.backend.arch),
                i <= self.ir@.len(),
                lowered_all(pats, self.ir@.take(i as int)) is Some,
                insts_view(funcasm.insts@) == insts_view(start) + lowered_all(pats, self.ir@.take(i as int)).unwrap(),
                self.rich_commenting ==> funcasm.meta_insts@.len() == meta_start.len() + i,
                self.rich_commenting ==> forall|k: int| 0 <= k < i ==>
                    (#[trigger] funcasm.meta_insts@[meta_start.len() + k]).comment@ == node_dump(self.ir@[k]),
                self.rich_commenting ==> forall|k: int| 0 <= k < i ==>
                    Some(insts_view((#[trigger] funcasm.meta_insts@[meta_start.len() + k]).insts@)) == lowered(pats, self.ir@[k]@),
                !self.rich_commenting ==> funcasm.meta_insts@ == meta_start,
                !self.rich_commenting ==> funcasm.meta_insts == old(funcasm).meta_insts,
                funcasm.name == old(funcasm).name,
                funcasm.scope == old(funcasm).scope,
                funcasm.consts == old(funcasm).consts,
            decreases self.ir@.len() - i,
        {
            let node = &self.ir[i];
            let ghost t = self.ir@.take(i as int + 1);
            proof {
                assert(t.drop_last() =~= self.ir@.take(i as int));
                assert(t.last() == self.ir@[i as int]);
            }
            match self.backend.lower_inst(node) {
                Ok(insts) => {
                    let ghost before = funcasm.insts@;
                    funcasm.add(insts.as_slice());
                    if self.rich_commenting {
                        let comment = dump_node(node);
                        let mut copy: Vec<AssemblyInst> = Vec::new();
                        let mut q: usize = 0;
                        while q < insts.len()
                            invariant
                                q <= insts@.len(),
                                insts_view(copy@) == insts_view(insts@.take(q as int)),
                            decreases insts@.len() - q,
                        {
                            let c = insts[q].clone();
                            let ghost prev = copy@;
                            copy.push(c);
                            q = q + 1;
                            assert(insts_view(insts@.take(q as int)) =~= insts_view(insts@.take(q - 1)).push(insts@[q - 1]@));
                            assert(insts_view(copy@) =~= insts_view(prev).push(c@));
                            assert(insts_view(copy@) =~= insts_view(insts@.take(q as int)));
                        }
                        assert(insts@.take(insts@.len() as int) =~= insts@);
                        funcasm.meta_insts.push(CommentedInst { insts: copy, comment });
                    }
                    i = i + 1;
                    proof {
                        assert(insts_view(funcasm.insts@) =~= insts_view(start) + lowered_all(pats, self.ir@.take(i as int)).unwrap());
                    }
                },
                Err(e) => {
                    proof {
                        assert(lowered_all(pats, t) is None);
                        if lowered_all(pats, self.ir@) is Some {
                            lemma_lowered_all_prefix(pats, self.ir@, i as int + 1);
                        }
                    }
                    return Err(e);
                },
            }
        }
        assert(self.ir@.take(self.ir@.len() as int) =~= self.ir@);
        Ok(())
    }
}

} // verus!
