use vstd::prelude::*;
use crate::error::CodegenError;
use crate::ir::{Function, IrNode, IrOpcode, IrOperand};
use crate::target::{spec_arg_location, spec_gprs, ArchBackend, TargetArch};
use crate::ty::TypeMetadata;

verus! {

/// A concrete storage binding.
#[derive(Debug, Clone, Copy, PartialEq, Eq, Structural, Hash)]
pub enum Allocation {
    /// A register, by its target-specific number
    Register { id: usize, ty: TypeMetadata },
    /// A stack slot, by index; the printer turns it into a byte offset
    Stack { slot: usize, ty: TypeMetadata },
    /// An immediate value
    Imm { num: usize, ty: TypeMetadata },
    /// A function-scoped constant, by id
    ConstUse { id: usize },
}

impl Allocation {
    /// Returns if it is a register
    pub fn is_gr(&self) -> (r: bool)
        ensures
            r == self is Register,
    {
        matches!(self, Allocation::Register { .. })
    }

    /// Returns if it is a stack slot
    pub fn is_mem(&self) -> (r: bool)
        ensures
            r == self is Stack,
    {
        matches!(self, Allocation::Stack { .. })
    }

    /// Returns if it is an immediate
    pub fn is_imm(&self) -> (r: bool)
        ensures
            r == self is Imm,
    {
        matches!(self, Allocation::Imm { .. })
    }

    /// The value type held, if the allocation carries one
    pub open spec fn spec_ty(&self) -> Option<TypeMetadata> {
        match self {
            Allocation::Register { ty, .. } => Some(*ty),
            Allocation::Stack { ty, .. } => Some(*ty),
            Allocation::Imm { ty, .. } => Some(*ty),
            Allocation::ConstUse { .. } => None,
        }
    }

    /// Returns the value type held (not where it is held); constants carry none
    pub fn get_ty(&self) -> (r: Option<TypeMetadata>)
        ensures
            r == self.spec_ty(),
    {
        match self {
            Allocation::Register { ty, .. } => Some(*ty),
            Allocation::Stack { ty, .. } => Some(*ty),
            Allocation::Imm { ty, .. } => Some(*ty),
            Allocation::ConstUse { .. } => None,
        }
    }
}

/// An IR node whose operands and output are bound to storage.
#[derive(Debug, PartialEq, Eq)]
pub struct AllocatedIrNode {
    /// What the node does
    pub opcode: IrOpcode,
    /// Where its operands are read from
    pub ops: Vec<Allocation>,
    /// Whether it produces a value
    pub has_out: bool,
    /// The type of the produced value
    pub ty: Option<TypeMetadata>,
    /// Where the produced value is written
    pub alloc: Option<Allocation>,
}

/// Copies a list of allocations.
pub fn copy_allocations(ops: &Vec<Allocation>) -> (r: Vec<Allocation>)
    ensures
        r@ == ops@,
{
    let mut r: Vec<Allocation> = Vec::new();
    let mut i: usize = 0;
    while i < ops.len()
        invariant
            i <= ops@.len(),
            r@ == ops@.take(i as int),
        decreases ops@.len() - i,
    {
        r.push(ops[i]);
        i = i + 1;
        assert(r@ =~= ops@.take(i as int));
    }
    assert(ops@.take(ops@.len() as int) =~= ops@);
    r
}

impl Clone for AllocatedIrNode {
    fn clone(&self) -> (r: Self)
        ensures
            r.same_as(*self),
    {
        AllocatedIrNode {
            opcode: self.opcode,
            ops: copy_allocations(&self.ops),
            has_out: self.has_out,
            ty: self.ty,
            alloc: self.alloc,
        }
    }
}

/// The contents of an allocated node.
pub struct NodeView {
    pub opcode: IrOpcode,
    pub ops: Seq<Allocation>,
    pub has_out: bool,
    pub ty: Option<TypeMetadata>,
    pub alloc: Option<Allocation>,
}

impl View for AllocatedIrNode {
    type V = NodeView;

    open spec fn view(&self) -> NodeView {
        NodeView { opcode: self.opcode, ops: self.ops@, has_out: self.has_out, ty: self.ty, alloc: self.alloc }
    }
}

impl AllocatedIrNode {
    /// Whether two nodes agree in every field's contents.
    pub open spec fn same_as(&self, other: AllocatedIrNode) -> bool {
        &&& self.opcode == other.opcode
        &&& self.ops@ == other.ops@
        &&& self.has_out == other.has_out
        &&& self.ty == other.ty
        &&& self.alloc == other.alloc
    }
}

/// The operand under any number of `Drop` wrappers.
pub open spec fn base_operand(op: IrOperand) -> IrOperand
    decreases op,
{
    match op {
        IrOperand::Drop(inner) => base_operand(*inner),
        _ => op,
    }
}

/// Stripping `Drop` wrappers leaves no `Drop`.
pub proof fn lemma_base_not_drop(op: IrOperand)
    ensures
        !(base_operand(op) is Drop),
    decreases op,
{
    if let IrOperand::Drop(inner) = op {
        lemma_base_not_drop(*inner);
    }
}

/// Whether body position `j < k` holds node `n` and that node produces a value.
pub open spec fn produced_before(nodes: Seq<IrNode>, ir: Seq<usize>, k: int, n: usize) -> bool {
    exists|j: int| 0 <= j < k && #[trigger] ir[j] == n && nodes[n as int].has_out
}

/// Whether every value that operand `op` at body position `k` reads was produced earlier.
pub open spec fn resolvable(nodes: Seq<IrNode>, ir: Seq<usize>, k: int, op: IrOperand) -> bool {
    match base_operand(op) {
        IrOperand::Out(n) => produced_before(nodes, ir, k, n),
        _ => true,
    }
}

/// Whether every operand of the body reads something that exists when it runs.
pub open spec fn allocatable(nodes: Seq<IrNode>, ir: Seq<usize>) -> bool {
    forall|k: int, i: int|
        0 <= k < ir.len() && 0 <= i < nodes[ir[k] as int].ops@.len() ==> resolvable(
            nodes,
            ir,
            k,
            #[trigger] nodes[ir[k] as int].ops@[i],
        )
}

/// Whether `a` is where operand `op` at body position `k` is read from: an argument at its
/// calling-convention place, a literal as an immediate, a value where its producer wrote it.
pub open spec fn resolves_to(
    arch: TargetArch,
    ir: Seq<usize>,
    out: Seq<AllocatedIrNode>,
    k: int,
    op: IrOperand,
    a: Allocation,
) -> bool {
    match base_operand(op) {
        IrOperand::Arg { num, ty } => a == spec_arg_location(arch, num, ty),
        IrOperand::ConstNum { num, ty } => a == (Allocation::Imm { num, ty }),
        IrOperand::Out(n) => exists|j: int| 0 <= j < k && #[trigger] ir[j] == n && out[j].alloc == Some(a),
        IrOperand::Drop(_) => false,
    }
}

/// Whether `a` is a register the allocator may hand out or a stack slot.
pub open spec fn fresh_location(arch: TargetArch, a: Allocation) -> bool {
    match a {
        Allocation::Register { id, .. } => spec_gprs(arch).contains(id),
        Allocation::Stack { .. } => true,
        _ => false,
    }
}

/// What a successful allocation of a body guarantees: one allocated node per body node, with
/// the same opcode, output flag and type; every node with an output gets an allocation out
/// of the register file or the stack, every other none; every operand resolves.
pub open spec fn allocation_of(
    arch: TargetArch,
    nodes: Seq<IrNode>,
    ir: Seq<usize>,
    out: Seq<AllocatedIrNode>,
) -> bool {
    &&& out.len() == ir.len()
    &&& forall|k: int|
        0 <= k < ir.len() ==> {
            let a = #[trigger] out[k];
            let n = nodes[ir[k] as int];
            &&& a.opcode == n.opcode
            &&& a.has_out == n.has_out
            &&& a.ty == n.ty
            &&& (a.alloc is Some <==> n.has_out)
            &&& (a.alloc is Some ==> fresh_location(arch, a.alloc.unwrap()))
            &&& a.ops@.len() == n.ops@.len()
            &&& forall|i: int|
                0 <= i < n.ops@.len() ==> resolves_to(arch, ir, out, k, n.ops@[i], #[trigger] a.ops@[i])
        }
}

/// The operand locations and the own location of each allocated node.
pub open spec fn out_pairs(out: Seq<AllocatedIrNode>) -> Seq<(Seq<Allocation>, Option<Allocation>)> {
    out.map_values(|n: AllocatedIrNode| (n.ops@, n.alloc))
}

/// The allocator's state between steps: the free registers and the free stack slots (the
/// last entry of each is handed out first), the next fresh slot, whether a slot was ever
/// issued, and the allocation recorded for each node of the arena.
pub struct AllocState {
    pub regs: Seq<Allocation>,
    pub mem: Seq<Allocation>,
    pub next_slot: nat,
    pub used_stack: bool,
    pub allocs: Seq<Option<Allocation>>,
}

/// The state before the first node: every general-purpose register free, the first one of
/// the allocation order on top, no stack slot issued, nothing recorded.
pub open spec fn initial_state(arch: TargetArch, n_nodes: nat) -> AllocState {
    let g = spec_gprs(arch);
    AllocState {
        regs: Seq::new(g.len(), |i: int| Allocation::Register { id: g[g.len() - 1 - i], ty: TypeMetadata::Int64 }),
        mem: Seq::empty(),
        next_slot: 0,
        used_stack: false,
        allocs: Seq::new(n_nodes, |i: int| None),
    }
}

/// Taking a location for a new value: the most recently freed register, else the most
/// recently freed stack slot, else a fresh stack slot.
pub open spec fn take_spec(s: AllocState, ty: TypeMetadata) -> (Allocation, AllocState) {
    if s.regs.len() > 0 {
        (s.regs.last(), AllocState { regs: s.regs.drop_last(), ..s })
    } else if s.mem.len() > 0 {
        (s.mem.last(), AllocState { mem: s.mem.drop_last(), ..s })
    } else {
        (
            Allocation::Stack { slot: s.next_slot as usize, ty },
            AllocState { next_slot: s.next_slot + 1, used_stack: true, ..s },
        )
    }
}

/// Giving a location back after a last use: registers and stack slots go on top of their
/// free list, anything else is ignored.
pub open spec fn release_spec(s: AllocState, a: Allocation) -> AllocState {
    match a {
        Allocation::Register { .. } => AllocState { regs: s.regs.push(a), ..s },
        Allocation::Stack { .. } => AllocState { mem: s.mem.push(a), ..s },
        _ => s,
    }
}

/// Where an operand is read from, given the allocations recorded so far.
pub open spec fn resolve_spec(arch: TargetArch, allocs: Seq<Option<Allocation>>, op: IrOperand) -> Option<Allocation> {
    match base_operand(op) {
        IrOperand::Arg { num, ty } => Some(spec_arg_location(arch, num, ty)),
        IrOperand::ConstNum { num, ty } => Some(Allocation::Imm { num, ty }),
        IrOperand::Out(n) => if n < allocs.len() {
            allocs[n as int]
        } else {
            None
        },
        IrOperand::Drop(_) => None,
    }
}

/// Resolving the operands of a node in order, releasing the location of each last use.
pub open spec fn ops_step(arch: TargetArch, s: AllocState, ops: Seq<IrOperand>) -> Option<(AllocState, Seq<Allocation>)>
    decreases ops.len(),
{
    if ops.len() == 0 {
        Some((s, Seq::empty()))
    } else {
        match ops_step(arch, s, ops.drop_last()) {
            Some((s1, done)) => match resolve_spec(arch, s1.allocs, ops.last()) {
                Some(a) => Some((if ops.last() is Drop { release_spec(s1, a) } else { s1 }, done.push(a))),
                None => None,
            },
            None => None,
        }
    }
}

/// The type a new location is taken for.
pub open spec fn node_ty(node: IrNode) -> TypeMetadata {
    match node.ty {
        Some(t) => t,
        None => TypeMetadata::Int64,
    }
}

/// One node: take a location for its value, resolve its operands, then record the location.
pub open spec fn node_step(arch: TargetArch, s: AllocState, node: IrNode, id: usize) -> Option<(AllocState, Seq<Allocation>, Option<Allocation>)> {
    let (alloc, s1) = if node.has_out {
        let p = take_spec(s, node_ty(node));
        (Some(p.0), p.1)
    } else {
        (None, s)
    };
    match ops_step(arch, s1, node.ops@) {
        Some((s2, ops)) => Some((
            if node.has_out {
                AllocState { allocs: s2.allocs.update(id as int, alloc), ..s2 }
            } else {
                s2
            },
            ops,
            alloc,
        )),
        None => None,
    }
}

/// The allocator run over the first `k` nodes of the body: the state reached and, per node,
/// its operand locations and its own location.
pub open spec fn run_spec(arch: TargetArch, nodes: Seq<IrNode>, ir: Seq<usize>, k: nat) -> Option<(AllocState, Seq<(Seq<Allocation>, Option<Allocation>)>)>
    decreases k,
{
    if k == 0 {
        Some((initial_state(arch, nodes.len()), Seq::empty()))
    } else {
        match run_spec(arch, nodes, ir, (k - 1) as nat) {
            Some((s, acc)) => match node_step(arch, s, nodes[ir[k - 1] as int], ir[k - 1]) {
                Some((s2, ops, alloc)) => Some((s2, acc.push((ops, alloc)))),
                None => None,
            },
            None => None,
        }
    }
}

proof fn lemma_ops_step_prefix(arch: TargetArch, s: AllocState, ops: Seq<IrOperand>, j: int)
    requires
        0 <= j <= ops.len(),
        ops_step(arch, s, ops) is Some,
    ensures
        ops_step(arch, s, ops.take(j)) is Some,
    decreases ops.len(),
{
    if j < ops.len() {
        assert(ops.drop_last().take(j) =~= ops.take(j));
        lemma_ops_step_prefix(arch, s, ops.drop_last(), j);
    } else {
        assert(ops.take(j) =~= ops);
    }
}

proof fn lemma_run_prefix(arch: TargetArch, nodes: Seq<IrNode>, ir: Seq<usize>, j: nat, k: nat)
    requires
        j <= k,
        run_spec(arch, nodes, ir, k) is Some,
    ensures
        run_spec(arch, nodes, ir, j) is Some,
    decreases k,
{
    if j < k {
        lemma_run_prefix(arch, nodes, ir, j, (k - 1) as nat);
    }
}

proof fn lemma_resolves_extend(
    arch: TargetArch,
    ir: Seq<usize>,
    out: Seq<AllocatedIrNode>,
    x: AllocatedIrNode,
    k: int,
    op: IrOperand,
    a: Allocation,
)
    requires
        0 <= k <= out.len(),
        resolves_to(arch, ir, out, k, op, a),
    ensures
        resolves_to(arch, ir, out.push(x), k, op, a),
{
    if let IrOperand::Out(n) = base_operand(op) {
        let j = choose|j: int| 0 <= j < k && #[trigger] ir[j] == n && out[j].alloc == Some(a);
        assert(out.push(x)[j] == out[j]);
    }
}

/// Looks up where `op` is read from; `None` when it reads a value not yet allocated.
fn resolve(back: &ArchBackend, op: &IrOperand, allocs: &Vec<Option<Allocation>>) -> (r: Option<Allocation>)
    ensures
        r == resolve_spec(back.arch, allocs@, *op),
    decreases op,
{
    match op {
        IrOperand::Arg { num, ty } => Some(back.callconv_argpos(*num, *ty)),
        IrOperand::ConstNum { num, ty } => Some(Allocation::Imm { num: *num, ty: *ty }),
        IrOperand::Out(n) => if *n < allocs.len() {
            allocs[*n]
        } else {
            None
        },
        IrOperand::Drop(inner) => resolve(back, &**inner, allocs),
    }
}

/// The allocator's free lists.
struct FreeLists {
    regs: Vec<Allocation>,
    mem: Vec<Allocation>,
    next_slot: usize,
    used_stack: bool,
}

impl FreeLists {
    spec fn holds_fresh(&self, arch: TargetArch) -> bool {
        &&& forall|i: int| 0 <= i < self.regs@.len() ==> fresh_location(arch, #[trigger] self.regs@[i])
        &&& forall|i: int| 0 <= i < self.mem@.len() ==> fresh_location(arch, #[trigger] self.mem@[i])
    }

    spec fn state(&self, allocs: Seq<Option<Allocation>>) -> AllocState {
        AllocState {
            regs: self.regs@,
            mem: self.mem@,
            next_slot: self.next_slot as nat,
            used_stack: self.used_stack,
            allocs,
        }
    }

    /// Takes the most recently freed register, else the most recently freed stack slot,
    /// else a new stack slot.
    fn take(&mut self, ty: TypeMetadata, arch: Ghost<TargetArch>, allocs: Ghost<Seq<Option<Allocation>>>) -> (r: Allocation)
        requires
            old(self).holds_fresh(arch@),
            old(self).next_slot < usize::MAX,
        ensures
            final(self).holds_fresh(arch@),
            fresh_location(arch@, r),
            final(self).next_slot <= old(self).next_slot + 1,
            (r, final(self).state(allocs@)) == take_spec(old(self).state(allocs@), ty),
    {
        if let Some(reg) = self.regs.pop() {
            proof {
                assert(old(self).regs@.last() == reg);
                assert(self.state(allocs@) == take_spec(old(self).state(allocs@), ty).1);
            }
            return reg;
        }
        if let Some(slot) = self.mem.pop() {
            proof {
                assert(old(self).mem@.last() == slot);
                assert(self.state(allocs@) == take_spec(old(self).state(allocs@), ty).1);
            }
            return slot;
        }
        let slot = self.next_slot;
        self.next_slot = self.next_slot + 1;
        self.used_stack = true;
        proof {
            assert(self.state(allocs@) == take_spec(old(self).state(allocs@), ty).1);
        }
        Allocation::Stack { slot, ty }
    }

    /// Returns a register or stack slot to its free list; other allocations are ignored.
    fn free(&mut self, a: Allocation, arch: Ghost<TargetArch>, allocs: Ghost<Seq<Option<Allocation>>>)
        requires
            old(self).holds_fresh(arch@),
            match a {
                Allocation::Register { .. } => fresh_location(arch@, a),
                _ => true,
            },
        ensures
            final(self).holds_fresh(arch@),
            final(self).next_slot == old(self).next_slot,
            final(self).state(allocs@) == release_spec(old(self).state(allocs@), a),
    {
        match a {
            Allocation::Register { .. } => self.regs.push(a),
            Allocation::Stack { .. } => self.mem.push(a),
            _ => {},
        }
    }
}

/// The register free list at the start: popping it yields the registers in allocation order.
fn initial_regs(back: &ArchBackend) -> (r: Vec<Allocation>)
    ensures
        forall|i: int| 0 <= i < r@.len() ==> fresh_location(back.arch, #[trigger] r@[i]),
        r@ == initial_state(back.arch, 0).regs,
{
    let all = back.grps();
    let mut r: Vec<Allocation> = Vec::new();
    let mut i: usize = all.len();
    while i > 0
        invariant
            i <= all@.len(),
            all@ == spec_gprs(back.arch).map_values(|id: usize| Allocation::Register { id, ty: TypeMetadata::Int64 }),
            forall|j: int| 0 <= j < r@.len() ==> fresh_location(back.arch, #[trigger] r@[j]),
            r@.len() == all@.len() - i,
            forall|j: int| 0 <= j < r@.len() ==> #[trigger] r@[j] == all@[all@.len() - 1 - j],
        decreases i,
    {
        i = i - 1;
        let a = all[i];
        proof {
            assert(spec_gprs(back.arch)[i as int] == spec_gprs(back.arch)[i as int]);
            assert(spec_gprs(back.arch).contains(spec_gprs(back.arch)[i as int]));
        }
        r.push(a);
    }
    assert(r@ =~= initial_state(back.arch, 0).regs);
    r
}

/// Whether the operand is a last use, under at least one `Drop`.
fn is_last_use(op: &IrOperand) -> (r: bool)
    ensures
        r == op is Drop,
{
    op.is_drop()
}

/// Binds every value of the body of `f` to a register or stack slot for `back`, in one pass.
/// Fails exactly when some operand reads a value that no earlier node of the body produced.
/// On success also says whether a stack slot was ever issued.
pub fn allocate(back: &ArchBackend, f: &Function) -> (r: Result<(Vec<AllocatedIrNode>, bool), CodegenError>)
    requires
        f.wf(),
    ensures
        r is Ok <==> allocatable(f.nodes@, f.ir@),
        r is Err ==> r == Err::<(Vec<AllocatedIrNode>, bool), CodegenError>(CodegenError::UnresolvedOperand),
        r is Ok ==> allocation_of(back.arch, f.nodes@, f.ir@, r.unwrap().0@),
        r is Ok <==> run_spec(back.arch, f.nodes@, f.ir@, f.ir@.len()) is Some,
        r is Ok ==> out_pairs(r.unwrap().0@) == run_spec(back.arch, f.nodes@, f.ir@, f.ir@.len()).unwrap().1,
        r is Ok ==> r.unwrap().1 == run_spec(back.arch, f.nodes@, f.ir@, f.ir@.len()).unwrap().0.used_stack,
{
    let ghost arch = back.arch;
    let ghost nodes = f.nodes@;
    let ghost ir = f.ir@;
    let mut lists = FreeLists { regs: initial_regs(back), mem: Vec::new(), next_slot: 0, used_stack: false };
    let mut allocs: Vec<Option<Allocation>> = Vec::new();
    let mut n: usize = 0;
    while n < f.nodes.len()
        invariant
            n <= f.nodes@.len(),
            allocs@.len() == n,
            forall|m: int| 0 <= m < n ==> allocs@[m] is None,
        decreases f.nodes@.len() - n,
    {
        allocs.push(None);
        n = n + 1;
    }
    assert(allocs@ =~= initial_state(arch, nodes.len()).allocs);
    assert(lists.state(allocs@) == initial_state(arch, nodes.len()));
    let mut out: Vec<AllocatedIrNode> = Vec::new();
    let mut k: usize = 0;
    let node_count = f.nodes.len();
    assert(nodes.len() == node_count);
    while k < f.ir.len()
        invariant
            f.wf(),
            arch == back.arch,
            nodes == f.nodes@,
            ir == f.ir@,
            k <= ir.len(),
            nodes.len() <= usize::MAX,
            out@.len() == k,
            allocs@.len() == nodes.len(),
            lists.holds_fresh(arch),
            lists.next_slot <= k,
            run_spec(arch, nodes, ir, k as nat) == Some((lists.state(allocs@), out_pairs(out@))),
            forall|k2: int, i: int|
                0 <= k2 < k && 0 <= i < nodes[ir[k2] as int].ops@.len() ==> resolvable(
                    nodes,
                    ir,
                    k2,
                    #[trigger] nodes[ir[k2] as int].ops@[i],
                ),
            forall|m: int|
                0 <= m < nodes.len() ==> (#[trigger] allocs@[m] is Some <==> produced_before(nodes, ir, k as int, m as usize)),
            forall|j: int|
                0 <= j < k && nodes[ir[j] as int].has_out ==> allocs@[#[trigger] ir[j] as int] == out@[j].alloc,
            forall|j: int|
                0 <= j < k ==> {
                    let a = #[trigger] out@[j];
                    let nd = nodes[ir[j] as int];
                    &&& a.opcode == nd.opcode
                    &&& a.has_out == nd.has_out
                    &&& a.ty == nd.ty
                    &&& (a.alloc is Some <==> nd.has_out)
                    &&& (a.alloc is Some ==> fresh_location(arch, a.alloc.unwrap()))
                    &&& a.ops@.len() == nd.ops@.len()
                    &&& forall|i: int|
                        0 <= i < nd.ops@.len() ==> resolves_to(arch, ir, out@, j, nd.ops@[i], #[trigger] a.ops@[i])
                },
        decreases ir.len() - k,
    {
        let id = f.ir[k];
        let node = &f.nodes[id];
        proof {
            assert forall|j: int| 0 <= j < k implies #[trigger] ir[j] != id by {
                assert(ir[j] < ir[k as int]);
            }
        }
        let ghost s0 = lists.state(allocs@);
        let mut alloc: Option<Allocation> = None;
        if node.has_out {
            let ty = match node.ty {
                Some(t) => t,
                None => TypeMetadata::Int64,
            };
            let a = lists.take(ty, Ghost(arch), Ghost(allocs@));
            alloc = Some(a);
        }
        let ghost s1 = lists.state(allocs@);
        proof {
            assert(node.ops@.take(0) =~= Seq::<IrOperand>::empty());
            assert(ops_step(arch, s1, node.ops@.take(0)) == Some((s1, Seq::<Allocation>::empty())));
        }
        let mut ops: Vec<Allocation> = Vec::new();
        let mut i: usize = 0;
        while i < node.ops.len()
            invariant
                f.wf(),
                nodes == f.nodes@,
                ir == f.ir@,
                k < ir.len(),
                id == ir[k as int],
                *node == nodes[id as int],
                out@.len() == k,
                allocs@.len() == nodes.len(),
                arch == back.arch,
                i <= node.ops@.len(),
                ops@.len() == i,
                lists.holds_fresh(arch),
                lists.next_slot <= k + 1,
                forall|m: int|
                    0 <= m < nodes.len() ==> (#[trigger] allocs@[m] is Some <==> produced_before(nodes, ir, k as int, m as usize)),
                forall|j: int|
                    0 <= j < k && nodes[ir[j] as int].has_out ==> allocs@[#[trigger] ir[j] as int] == out@[j].alloc,
                forall|j: int|
                    0 <= j < k ==> {
                        let a = #[trigger] out@[j];
                        let nd = nodes[ir[j] as int];
                        &&& (a.alloc is Some <==> nd.has_out)
                        &&& (a.alloc is Some ==> fresh_location(arch, a.alloc.unwrap()))
                    },
                forall|t: int| 0 <= t < i ==> resolvable(nodes, ir, k as int, #[trigger] node.ops@[t]),
                alloc is Some <==> node.has_out,
                alloc is Some ==> fresh_location(arch, alloc.unwrap()),
                forall|t: int| 0 <= t < i ==> resolves_to(arch, ir, out@, k as int, node.ops@[t], #[trigger] ops@[t]),
                run_spec(arch, nodes, ir, k as nat) == Some((s0, out_pairs(out@))),
                s1 == (if node.has_out { take_spec(s0, node_ty(*node)).1 } else { s0 }),
                alloc == (if node.has_out { Some(take_spec(s0, node_ty(*node)).0) } else { None::<Allocation> }),
                s0.allocs == allocs@,
                ops_step(arch, s1, node.ops@.take(i as int)) == Some((lists.state(allocs@), ops@)),
            decreases node.ops@.len() - i,
        {
            let op = &node.ops[i];
            match resolve(back, op, &allocs) {
                Some(a) => {
                    proof {
                        if let IrOperand::Out(m) = base_operand(*op) {
                            assert(allocs@[m as int] is Some);
                            assert(produced_before(nodes, ir, k as int, m));
                            let j = choose|j: int| 0 <= j < k && #[trigger] ir[j] == m && nodes[m as int].has_out;
                            assert(allocs@[ir[j] as int] == out@[j].alloc);
                        }
                        if let IrOperand::Arg { num, ty } = base_operand(*op) {
                            if num < crate::target::spec_arg_regs(arch).len() {
                                crate::target::lemma_arg_regs_in_gprs(arch, num as int);
                            }
                        }
                    }
                    let ghost before = lists.state(allocs@);
                    let ghost done = ops@;
                    if is_last_use(op) {
                        lists.free(a, Ghost(arch), Ghost(allocs@));
                    }
                    ops.push(a);
                    proof {
                        let t = node.ops@.take(i + 1);
                        assert(t.drop_last() =~= node.ops@.take(i as int));
                        assert(t.last() == node.ops@[i as int]);
                        assert(before.allocs == allocs@);
                        assert(ops_step(arch, s1, t) == Some((lists.state(allocs@), done.push(a))));
                        assert(ops@ =~= done.push(a));
                    }
                },
                None => {
                    proof {
                        lemma_base_not_drop(*op);
                        let m = base_operand(*op)->Out_0;
                        if m < nodes.len() {
                            assert(allocs@[m as int] is None);
                        }
                        assert(!resolvable(nodes, ir, k as int, node.ops@[i as int]));
                        assert(!allocatable(nodes, ir));
                        let t = node.ops@.take(i + 1);
                        assert(t.drop_last() =~= node.ops@.take(i as int));
                        assert(t.last() == node.ops@[i as int]);
                        assert(ops_step(arch, s1, t) is None);
                        if ops_step(arch, s1, node.ops@) is Some {
                            lemma_ops_step_prefix(arch, s1, node.ops@, i + 1);
                        }
                        assert(node_step(arch, s0, *node, id) is None);
                        assert(run_spec(arch, nodes, ir, (k + 1) as nat) is None);
                        if run_spec(arch, nodes, ir, ir.len()) is Some {
                            lemma_run_prefix(arch, nodes, ir, (k + 1) as nat, ir.len());
                        }
                    }
                    return Err(CodegenError::UnresolvedOperand);
                },
            }
            i = i + 1;
        }
        proof {
            assert(node.ops@.take(node.ops@.len() as int) =~= node.ops@);
        }
        let ghost s2 = lists.state(allocs@);
        if node.has_out {
            allocs.set(id, alloc);
        }
        let ghost prev = out@;
        let new_node = AllocatedIrNode { opcode: node.opcode, ops, has_out: node.has_out, ty: node.ty, alloc };
        out.push(new_node);
        k = k + 1;
        proof {
            assert(node_step(arch, s0, *node, id) == Some((lists.state(allocs@), new_node.ops@, alloc)));
            assert(out_pairs(out@) =~= out_pairs(prev).push((new_node.ops@, alloc)));
            assert(run_spec(arch, nodes, ir, k as nat) == Some((lists.state(allocs@), out_pairs(out@))));
            assert forall|j: int, t: int|
                0 <= j < k && 0 <= t < nodes[ir[j] as int].ops@.len() implies resolves_to(
                arch,
                ir,
                out@,
                j,
                nodes[ir[j] as int].ops@[t],
                #[trigger] out@[j].ops@[t],
            ) by {
                lemma_resolves_extend(arch, ir, prev, new_node, j, nodes[ir[j] as int].ops@[t], out@[j].ops@[t]);
            }
            assert forall|m: int|
                0 <= m < nodes.len() implies (#[trigger] allocs@[m] is Some <==> produced_before(nodes, ir, k as int, m as usize)) by {
                if m == id as int {
                    if nodes[m].has_out {
                        assert(ir[k - 1] == id);
                    } else if produced_before(nodes, ir, k as int, m as usize) {
                        let j = choose|j: int| 0 <= j < k && #[trigger] ir[j] == m as usize && nodes[m].has_out;
                    }
                } else {
                    assert(ir[k - 1] == id);
                    assert(m as usize != id);
                    if produced_before(nodes, ir, k as int, m as usize) {
                        let j = choose|j: int| 0 <= j < k && #[trigger] ir[j] == m as usize && nodes[m].has_out;
                        assert(j != k - 1);
                        assert(0 <= j < k - 1 && ir[j] == m as usize && nodes[m].has_out);
                    }
                    if produced_before(nodes, ir, k - 1, m as usize) {
                        let j = choose|j: int| 0 <= j < k - 1 && #[trigger] ir[j] == m as usize && nodes[m].has_out;
                        assert(0 <= j < k && ir[j] == m as usize && nodes[m].has_out);
                    }
                }
            }
        }
    }
    proof {
        assert forall|k2: int, i: int|
            0 <= k2 < ir.len() && 0 <= i < nodes[ir[k2] as int].ops@.len() implies resolvable(
                nodes,
                ir,
                k2,
                #[trigger] nodes[ir[k2] as int].ops@[i],
            ) by {}
    }
    Ok((out, lists.used_stack))
}

/// The register allocator of one function for one backend.
pub struct RegAlloc {
    args: Vec<TypeMetadata>,
    allocated_ir: Vec<AllocatedIrNode>,
    used_stack: bool,
    back: ArchBackend,
}

impl RegAlloc {
    /// The allocated nodes so far.
    pub closed spec fn allocated(&self) -> Seq<AllocatedIrNode> {
        self.allocated_ir@
    }

    /// The backend allocated for.
    pub closed spec fn backend(&self) -> ArchBackend {
        self.back
    }

    /// Whether a stack slot was issued.
    pub closed spec fn spills(&self) -> bool {
        self.used_stack
    }

    /// Creates an allocator for a function with parameters `args`
    pub fn new(args: Vec<TypeMetadata>, backend: &ArchBackend) -> (r: Self)
        ensures
            r.allocated().len() == 0,
            r.backend() == *backend,
            !r.spills(),
    {
        RegAlloc { args, allocated_ir: Vec::new(), used_stack: false, back: *backend }
    }

    /// Allocates the body of `f`. On failure nothing changes.
    pub fn run(&mut self, f: &Function) -> (r: Result<(), CodegenError>)
        requires
            f.wf(),
        ensures
            r is Ok <==> allocatable(f.nodes@, f.ir@),
            r is Err ==> r == Err::<(), CodegenError>(CodegenError::UnresolvedOperand) && *final(self) == *old(self),
            r is Ok ==> allocation_of(old(self).backend().arch, f.nodes@, f.ir@, final(self).allocated()),
            r is Ok ==> out_pairs(final(self).allocated()) == run_spec(old(self).backend().arch, f.nodes@, f.ir@, f.ir@.len()).unwrap().1,
            r is Ok ==> final(self).spills() == run_spec(old(self).backend().arch, f.nodes@, f.ir@, f.ir@.len()).unwrap().0.used_stack,
            final(self).backend() == old(self).backend(),
    {
        match allocate(&self.back, f) {
            Ok((nodes, spills)) => {
                self.allocated_ir = nodes;
                self.used_stack = spills;
                Ok(())
            },
            Err(e) => Err(e),
        }
    }

    /// Returns the allocated nodes
    pub fn get_ir(&self) -> (r: &Vec<AllocatedIrNode>)
        ensures
            r@ == self.allocated(),
    {
        &self.allocated_ir
    }

    /// Returns whether a stack slot was issued, so that a frame is needed
    pub fn uses_stack(&self) -> (r: bool)
        ensures
            r == self.spills(),
    {
        self.used_stack
    }
}

} // verus!
