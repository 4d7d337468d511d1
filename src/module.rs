use vstd::prelude::*;
use crate::assembly::{insts_view, AsmView, Compilation, FuncAsm};
use crate::dropper::{annotate_last_uses, annotated, annotation_of};
use crate::error::CodegenError;
use crate::inst_selec::{lowered_all, InstSelector};
use crate::ir::{body_wf, Function, IrNode, IrOperand};
use crate::opt::{kept, Dce, Optimization};
use crate::regalloc::{allocatable, allocate, allocation_of, base_operand, out_pairs, produced_before, resolvable, run_spec, AllocatedIrNode};
use crate::target::{spec_table, ArchBackend, TargetArch};

verus! {

/// The optimization passes a module can queue.
#[derive(Debug, Clone, Copy, PartialEq, Eq, Structural)]
pub enum OptPass {
    /// Dead-code elimination
    Dce,
}

/// Whether two arenas hold nodes with the same contents.
pub open spec fn same_nodes(a: Seq<IrNode>, b: Seq<IrNode>) -> bool {
    a.len() == b.len() && forall|i: int| 0 <= i < a.len() ==> (#[trigger] a[i]).same_as(b[i])
}

/// Whether `out` is what the pipeline allocates for the body `ir` of the arena `nodes`: the
/// allocator's run over the body after last-use annotation.
pub open spec fn pipeline_allocation(arch: TargetArch, nodes: Seq<IrNode>, ir: Seq<usize>, out: Seq<AllocatedIrNode>) -> bool {
    exists|base: Seq<IrNode>, an: Seq<IrNode>|
        same_nodes(base, nodes) && annotation_of(base, ir, an) && allocation_of(arch, an, ir, out)
            && run_spec(arch, an, ir, ir.len()) is Some && out_pairs(out) == run_spec(arch, an, ir, ir.len()).unwrap().1
}

/// Whether `insts` is what the backend of `arch` emits for the body `ir` of the arena `nodes`:
/// the lowering of the pipeline's allocation of the body.
pub open spec fn compiled_from(arch: TargetArch, nodes: Seq<IrNode>, ir: Seq<usize>, insts: Seq<AsmView>) -> bool {
    exists|out: Seq<AllocatedIrNode>|
        pipeline_allocation(arch, nodes, ir, out) && lowered_all(spec_table(arch), out) == Some(insts)
}

/// Whether some node of the pipeline's allocation of the body has no pattern that applies.
pub open spec fn lowering_fails(arch: TargetArch, nodes: Seq<IrNode>, ir: Seq<usize>) -> bool {
    exists|out: Seq<AllocatedIrNode>| pipeline_allocation(arch, nodes, ir, out) && lowered_all(spec_table(arch), out) is None
}

/// Annotation wraps operands in `Drop` only, so it reads the same values as before.
proof fn lemma_annotation_allocatable(base: Seq<IrNode>, ir: Seq<usize>, an: Seq<IrNode>)
    requires
        body_wf(base, ir),
        annotation_of(base, ir, an),
    ensures
        allocatable(an, ir) == allocatable(base, ir),
{
    assert forall|k: int, i: int| 0 <= k < ir.len() && 0 <= i < base[ir[k] as int].ops@.len() implies base_operand(
        #[trigger] an[ir[k] as int].ops@[i],
    ) == base_operand(base[ir[k] as int].ops@[i]) by {
        let _ = an[ir[k] as int];
        assert(an[ir[k] as int].ops@[i] == annotated(base, ir, k, i));
    }
    if allocatable(base, ir) {
        assert forall|k: int, i: int| 0 <= k < ir.len() && 0 <= i < an[ir[k] as int].ops@.len() implies resolvable(
            an,
            ir,
            k,
            #[trigger] an[ir[k] as int].ops@[i],
        ) by {
            let _ = an[ir[k] as int];
            assert(resolvable(base, ir, k, base[ir[k] as int].ops@[i]));
            assert forall|j: int| 0 <= j < k implies (#[trigger] ir[j] == ir[j]) && an[ir[j] as int].has_out == base[ir[j] as int].has_out by {
                let _ = an[ir[j] as int];
            }
            if let IrOperand::Out(m) = base_operand(base[ir[k] as int].ops@[i]) {
                let j = choose|j: int| 0 <= j < k && #[trigger] ir[j] == m && base[m as int].has_out;
                let _ = an[ir[j] as int];
            }
        }
    } else {
        let (k, i) = choose|k: int, i: int|
            0 <= k < ir.len() && 0 <= i < base[ir[k] as int].ops@.len() && !resolvable(
                base,
                ir,
                k,
                #[trigger] base[ir[k] as int].ops@[i],
            );
        let _ = an[ir[k] as int];
        if let IrOperand::Out(m) = base_operand(base[ir[k] as int].ops@[i]) {
            if resolvable(an, ir, k, an[ir[k] as int].ops@[i]) {
                let j = choose|j: int| 0 <= j < k && #[trigger] ir[j] == m && an[m as int].has_out;
                let _ = an[ir[j] as int];
            }
        }
        assert(!resolvable(an, ir, k, an[ir[k] as int].ops@[i]));
    }
}

/// Arenas with the same contents read the same values.
proof fn lemma_allocatable_same_nodes(a: Seq<IrNode>, b: Seq<IrNode>, ir: Seq<usize>)
    requires
        same_nodes(a, b),
        body_wf(b, ir),
    ensures
        allocatable(a, ir) == allocatable(b, ir),
{
    assert forall|k: int, i: int| 0 <= k < ir.len() && 0 <= i < a[ir[k] as int].ops@.len()
        implies #[trigger] a[ir[k] as int].ops@[i] == b[ir[k] as int].ops@[i] by {
        assert(a[ir[k] as int].same_as(b[ir[k] as int]));
    }
    assert forall|n: usize, k: int| 0 <= k <= ir.len() implies #[trigger] produced_before(a, ir, k, n) == produced_before(b, ir, k, n) by {
        if produced_before(a, ir, k, n) {
            let j = choose|j: int| 0 <= j < k && #[trigger] ir[j] == n && a[n as int].has_out;
            assert(a[n as int].same_as(b[n as int]));
        }
        if produced_before(b, ir, k, n) {
            let j = choose|j: int| 0 <= j < k && #[trigger] ir[j] == n && b[n as int].has_out;
            assert(a[n as int].same_as(b[n as int]));
        }
    }
    if allocatable(a, ir) {
        assert forall|k: int, i: int| 0 <= k < ir.len() && 0 <= i < b[ir[k] as int].ops@.len() implies resolvable(
            b, ir, k, #[trigger] b[ir[k] as int].ops@[i]) by {
            assert(a[ir[k] as int].same_as(b[ir[k] as int]));
            assert(resolvable(a, ir, k, a[ir[k] as int].ops@[i]));
        }
    }
    if allocatable(b, ir) {
        assert forall|k: int, i: int| 0 <= k < ir.len() && 0 <= i < a[ir[k] as int].ops@.len() implies resolvable(
            a, ir, k, #[trigger] a[ir[k] as int].ops@[i]) by {
            assert(a[ir[k] as int].same_as(b[ir[k] as int]));
            assert(resolvable(b, ir, k, b[ir[k] as int].ops@[i]));
        }
    }
}

/// Copies an arena node by node.
fn clone_nodes(nodes: &Vec<IrNode>) -> (r: Vec<IrNode>)
    ensures
        same_nodes(r@, nodes@),
{
    let mut r: Vec<IrNode> = Vec::new();
    let mut i: usize = 0;
    while i < nodes.len()
        invariant
            i <= nodes@.len(),
            r@.len() == i,
            forall|j: int| 0 <= j < i ==> (#[trigger] r@[j]).same_as(nodes@[j]),
        decreases nodes@.len() - i,
    {
        r.push(nodes[i].clone());
        i = i + 1;
    }
    r
}

/// Copies a list of indices.
fn clone_ids(ids: &Vec<usize>) -> (r: Vec<usize>)
    ensures
        r@ == ids@,
{
    let mut r: Vec<usize> = Vec::new();
    let mut i: usize = 0;
    while i < ids.len()
        invariant
            i <= ids@.len(),
            r@ == ids@.take(i as int),
        decreases ids@.len() - i,
    {
        r.push(ids[i]);
        i = i + 1;
        assert(r@ =~= ids@.take(i as int));
    }
    assert(ids@.take(ids@.len() as int) =~= ids@);
    r
}

/// Whether a function's body is well formed, checked at run time.
pub fn check_wf(f: &Function) -> (r: bool)
    ensures
        r == f.wf(),
{
    let mut k: usize = 0;
    while k < f.ir.len()
        invariant
            k <= f.ir@.len(),
            forall|j: int| 0 <= j < k ==> #[trigger] f.ir@[j] < f.nodes@.len(),
            forall|i: int, j: int| 0 <= i < j < k ==> f.ir@[i] < f.ir@[j],
        decreases f.ir@.len() - k,
    {
        if f.ir[k] >= f.nodes.len() {
            return false;
        }
        if k > 0 && f.ir[k - 1] >= f.ir[k] {
            return false;
        }
        proof {
            assert forall|i: int, j: int| 0 <= i < j < k + 1 implies f.ir@[i] < f.ir@[j] by {
                if j == k && i < k - 1 {
                    assert(f.ir@[i] < f.ir@[k - 1]);
                }
            }
        }
        k = k + 1;
    }
    true
}

/// Compiles one well-formed function: last-use annotation on a copy of its arena, register
/// allocation, instruction selection.
pub fn compile_function(back: &ArchBackend, f: &Function, rich_comments: bool) -> (r: Result<FuncAsm, CodegenError>)
    requires
        f.wf(),
    ensures
        r is Ok ==> compiled_from(back.arch, f.nodes@, f.ir@, insts_view(r.unwrap().insts@)),
        r is Ok ==> r.unwrap().name@ == f.name@ && r.unwrap().scope == f.visibility && r.unwrap().consts@.len() == 0,
        r is Ok ==> r.unwrap().meta_insts@.len() == if rich_comments { f.ir@.len() } else { 0 },
        r matches Err(e) ==> (e == CodegenError::UnresolvedOperand && !allocatable(f.nodes@, f.ir@))
            || (e == CodegenError::UnsupportedOpcode && lowering_fails(back.arch, f.nodes@, f.ir@)),
        allocatable(f.nodes@, f.ir@) && !lowering_fails(back.arch, f.nodes@, f.ir@) ==> r is Ok,
{
    let mut nodes = clone_nodes(&f.nodes);
    let ghost base = nodes@;
    annotate_last_uses(&mut nodes, &f.ir);
    let ghost an = nodes@;
    proof {
        lemma_annotation_allocatable(base, f.ir@, an);
        lemma_allocatable_same_nodes(base, f.nodes@, f.ir@);
    }
    let annotated_fn = Function {
        name: f.name.clone(),
        ret: f.ret,
        args: Vec::new(),
        nodes,
        ir: clone_ids(&f.ir),
        visibility: f.visibility,
    };
    let mut funcasm = FuncAsm::new(f.name.clone(), &f.visibility);
    match allocate(back, &annotated_fn) {
        Err(e) => Err(e),
        Ok((allocated, _)) => {
            let ghost out = allocated@;
            let selector = InstSelector::new(allocated, back, rich_comments);
            match selector.run(&mut funcasm) {
                Ok(()) => {
                    proof {
                        assert(insts_view(funcasm.insts@) =~= lowered_all(spec_table(back.arch), out).unwrap());
                        assert(same_nodes(base, f.nodes@) && annotation_of(base, f.ir@, an) && allocation_of(back.arch, an, f.ir@, out));
                        assert(pipeline_allocation(back.arch, f.nodes@, f.ir@, out));
                    }
                    Ok(funcasm)
                },
                Err(e) => {
                    proof {
                        assert(same_nodes(base, f.nodes@) && annotation_of(base, f.ir@, an) && allocation_of(back.arch, an, f.ir@, out));
                        assert(pipeline_allocation(back.arch, f.nodes@, f.ir@, out));
                    }
                    Err(e)
                },
            }
        },
    }
}

/// A compilation unit: functions and the optimizations queued for them.
pub struct Module {
    /// The functions of the module
    pub funcs: Vec<Function>,
    /// The passes `run_opts` runs, in order
    pub opts_to_run: Vec<OptPass>,
}

impl Module {
    /// The queued passes.
    pub open spec fn queued(&self) -> Seq<OptPass> {
        self.opts_to_run@
    }

    /// Creates an empty module
    pub fn new() -> (r: Self)
        ensures
            r.funcs@.len() == 0,
            r.queued().len() == 0,
    {
        Module { funcs: Vec::new(), opts_to_run: Vec::new() }
    }

    /// Adds a function
    pub fn add_func(&mut self, func: Function)
        ensures
            final(self).funcs@ == old(self).funcs@.push(func),
            final(self).queued() == old(self).queued(),
    {
        self.funcs.push(func);
    }

    /// Queues an optimization pass
    pub fn add_opt(&mut self, pass: OptPass)
        ensures
            final(self).queued() == old(self).queued().push(pass),
            final(self).funcs == old(self).funcs,
    {
        self.opts_to_run.push(pass);
    }

    /// Clears the queue of optimization passes
    pub fn clear_opts(&mut self)
        ensures
            final(self).queued().len() == 0,
            final(self).funcs == old(self).funcs,
    {
        self.opts_to_run = Vec::new();
    }

    /// Runs dead-code elimination on every well-formed function; others stay as they are.
    pub fn dce(&mut self)
        ensures
            final(self).funcs@.len() == old(self).funcs@.len(),
            final(self).queued() == old(self).queued(),
            forall|i: int| 0 <= i < old(self).funcs@.len() ==> {
                let a = #[trigger] final(self).funcs@[i];
                let b = old(self).funcs@[i];
                &&& a.nodes == b.nodes
                &&& a.name == b.name
                &&& a.args == b.args
                &&& a.ret == b.ret
                &&& a.visibility == b.visibility
                &&& (b.wf() ==> a.ir@ == kept(b.nodes@, b.ir@) && a.wf())
                &&& (!b.wf() ==> a.ir == b.ir)
            },
    {
        let mut i: usize = 0;
        while i < self.funcs.len()
            invariant
                i <= self.funcs@.len(),
                self.funcs@.len() == old(self).funcs@.len(),
                self.queued() == old(self).queued(),
                forall|j: int| i <= j < self.funcs@.len() ==> #[trigger] self.funcs@[j] == old(self).funcs@[j],
                forall|j: int| 0 <= j < i ==> {
                    let a = #[trigger] self.funcs@[j];
                    let b = old(self).funcs@[j];
                    &&& a.nodes == b.nodes
                    &&& a.name == b.name
                    &&& a.args == b.args
                    &&& a.ret == b.ret
                    &&& a.visibility == b.visibility
                    &&& (b.wf() ==> a.ir@ == kept(b.nodes@, b.ir@) && a.wf())
                    &&& (!b.wf() ==> a.ir == b.ir)
                },
            decreases self.funcs@.len() - i,
        {
            if check_wf(&self.funcs[i]) {
                let body = crate::opt::kept_body(&self.funcs[i].nodes, &self.funcs[i].ir);
                proof {
                    crate::opt::lemma_kept_wf(self.funcs@[i as int].nodes@, self.funcs@[i as int].ir@);
                }
                self.funcs[i].ir = body;
            }
            i = i + 1;
        }
    }

    /// Runs the queued passes, in order, on every well-formed function. Dead-code elimination
    /// is idempotent, so a queue that holds it at least once acts as one run of it.
    pub fn run_opts(&mut self)
        ensures
            final(self).funcs@.len() == old(self).funcs@.len(),
            final(self).queued() == old(self).queued(),
            old(self).queued().len() == 0 ==> final(self).funcs == old(self).funcs,
            forall|i: int| 0 <= i < old(self).funcs@.len() ==> {
                let a = #[trigger] final(self).funcs@[i];
                let b = old(self).funcs@[i];
                &&& a.nodes == b.nodes
                &&& a.name == b.name
                &&& a.args == b.args
                &&& a.ret == b.ret
                &&& a.visibility == b.visibility
                &&& (b.wf() && old(self).queued().len() > 0 ==> a.ir@ == kept(b.nodes@, b.ir@) && a.wf())
                &&& (!b.wf() || old(self).queued().len() == 0 ==> a.ir == b.ir)
            },
    {
        let mut p: usize = 0;
        while p < self.opts_to_run.len()
            invariant
                p <= self.opts_to_run@.len(),
                self.funcs@.len() == old(self).funcs@.len(),
                self.queued() == old(self).queued(),
                p == 0 ==> self.funcs == old(self).funcs,
                forall|i: int| 0 <= i < old(self).funcs@.len() ==> {
                    let a = #[trigger] self.funcs@[i];
                    let b = old(self).funcs@[i];
                    &&& a.nodes == b.nodes
                    &&& a.name == b.name
                    &&& a.args == b.args
                    &&& a.ret == b.ret
                    &&& a.visibility == b.visibility
                    &&& (b.wf() && p > 0 ==> a.ir@ == kept(b.nodes@, b.ir@) && a.wf())
                    &&& (!b.wf() || p == 0 ==> a.ir == b.ir)
                },
            decreases self.opts_to_run@.len() - p,
        {
            let ghost before = self.funcs@;
            match self.opts_to_run[p] {
                OptPass::Dce => self.dce(),
            }
            proof {
                assert forall|i: int| 0 <= i < old(self).funcs@.len() && old(self).funcs@[i].wf() implies
                    #[trigger] self.funcs@[i].ir@ == kept(old(self).funcs@[i].nodes@, old(self).funcs@[i].ir@) by {
                    let b = old(self).funcs@[i];
                    if p > 0 {
                        crate::opt::lemma_kept_idempotent(b.nodes@, b.ir@);
                        assert(before[i].ir@ == kept(b.nodes@, b.ir@));
                    }
                }
            }
            p = p + 1;
        }
    }

    /// Compiles every function for `target`: dead-code elimination on the module's
    /// functions, then annotation, allocation and instruction selection on each. With
    /// `rich_comments` every emitted group of instructions is also recorded with a dump of
    /// the node it came from. Fails on the first function that cannot be compiled.
    pub fn compile(&mut self, target: TargetArch, rich_comments: bool) -> (r: Result<Compilation, CodegenError>)
        ensures
            final(self).funcs@.len() == old(self).funcs@.len(),
            r is Ok ==> r.unwrap().arch == target && r.unwrap().funcs@.len() == final(self).funcs@.len(),
            r is Ok ==> forall|i: int| 0 <= i < final(self).funcs@.len() ==> {
                let f = #[trigger] final(self).funcs@[i];
                let g = old(self).funcs@[i];
                &&& g.wf()
                &&& f.ir@ == kept(g.nodes@, g.ir@)
                &&& f.nodes == g.nodes
                &&& compiled_from(target, f.nodes@, f.ir@, insts_view(r.unwrap().funcs@[i].insts@))
                &&& r.unwrap().funcs@[i].name@ == f.name@
                &&& r.unwrap().funcs@[i].scope == f.visibility
            },
            forall|i: int| 0 <= i < old(self).funcs@.len() ==> {
                let f = #[trigger] final(self).funcs@[i];
                let g = old(self).funcs@[i];
                &&& f.nodes == g.nodes
                &&& f.name == g.name
                &&& f.args == g.args
                &&& f.ret == g.ret
                &&& f.visibility == g.visibility
                &&& (g.wf() ==> f.ir@ == kept(g.nodes@, g.ir@) && f.wf())
                &&& (!g.wf() ==> f.ir == g.ir)
            },
            r matches Err(e) ==> exists|i: int| 0 <= i < old(self).funcs@.len() && {
                let g = #[trigger] old(self).funcs@[i];
                ||| e == CodegenError::UnresolvedOperand && (!g.wf() || !allocatable(g.nodes@, kept(g.nodes@, g.ir@)))
                ||| e == CodegenError::UnsupportedOpcode && g.wf() && lowering_fails(target, g.nodes@, kept(g.nodes@, g.ir@))
            },
    {
        self.dce();
        let back = target.backend();
        let mut result = Compilation::new(target);
        let mut i: usize = 0;
        while i < self.funcs.len()
            invariant
                i <= self.funcs@.len(),
                self.funcs@.len() == old(self).funcs@.len(),
                back.arch == target,
                result.arch == target,
                result.funcs@.len() == i,
                forall|j: int| 0 <= j < self.funcs@.len() ==> {
                    let a = #[trigger] self.funcs@[j];
                    let b = old(self).funcs@[j];
                    &&& a.nodes == b.nodes
                    &&& a.name == b.name
                    &&& a.args == b.args
                    &&& a.ret == b.ret
                    &&& a.visibility == b.visibility
                    &&& (b.wf() ==> a.ir@ == kept(b.nodes@, b.ir@) && a.wf())
                    &&& (!b.wf() ==> a.ir == b.ir)
                },
                forall|j: int| 0 <= j < i ==> old(self).funcs@[j].wf() && {
                    let f = #[trigger] self.funcs@[j];
                    &&& compiled_from(target, f.nodes@, f.ir@, insts_view(result.funcs@[j].insts@))
                    &&& result.funcs@[j].name@ == f.name@
                    &&& result.funcs@[j].scope == f.visibility
                },
            decreases self.funcs@.len() - i,
        {
            let ghost f = self.funcs@[i as int];
            if !check_wf(&self.funcs[i]) {
                proof {
                    assert(!old(self).funcs@[i as int].wf());
                }
                return Err(CodegenError::UnresolvedOperand);
            }
            match compile_function(&back, &self.funcs[i], rich_comments) {
                Ok(func) => {
                    result.add(func);
                },
                Err(e) => {
                    proof {
                        let _ = self.funcs@[i as int];
                    }
                    return Err(e);
                },
            }
            i = i + 1;
        }
        Ok(result)
    }
}

} // verus!
