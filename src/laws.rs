//! Properties that relate the passes of the pipeline, stated and proved once.
use vstd::prelude::*;
use crate::assembly::{insts_view, AssemblyInst};
use crate::assembly::FuncAsm;
use crate::decompile::{dealloc_of, decompiled_from, disassembly_of, node_views};
use crate::dropper::{annotated, annotation_of, slot_is, use_from};
use crate::inst_selec::lowered_all;
use crate::ir::{body_wf, Function, IrNode, IrOperand};
use crate::module::{compiled_from, pipeline_allocation};
use crate::opt::{kept, lemma_kept_idempotent};
use crate::regalloc::{allocation_of, out_pairs, resolves_to, run_spec, AllocatedIrNode, Allocation};
use crate::target::{
    lemma_num_for_arg_reg, spec_arg_location, spec_arg_regs, spec_callee_saved, spec_caller_saved,
    spec_gprs, spec_num_for_arg, spec_table, TargetArch,
};
use crate::ty::TypeMetadata;

verus! {

/// Dead-code elimination is idempotent: running it on its own result keeps everything.
pub proof fn lemma_dce_idempotent(f: Function)
    requires
        f.wf(),
    ensures
        kept(f.nodes@, kept(f.nodes@, f.ir@)) == kept(f.nodes@, f.ir@),
{
    lemma_kept_idempotent(f.nodes@, f.ir@);
}

/// Some slot at or after `(k, i)` reads `id` bare and no slot after it does.
proof fn lemma_last_use_exists(nodes: Seq<IrNode>, ir: Seq<usize>, k: int, i: int, id: usize)
    requires
        0 <= k,
        0 <= i,
        use_from(nodes, ir, k, i, id),
    ensures
        exists|k2: int, i2: int| #[trigger] slot_is(nodes, ir, k2, i2, id) && !use_from(nodes, ir, k2, i2 + 1, id),
    decreases ir.len() - k, nodes[ir[k] as int].ops@.len() - i,
{
    let (k2, i2) = choose|k2: int, i2: int| (k2 > k || (k2 == k && i2 >= i)) && #[trigger] slot_is(nodes, ir, k2, i2, id);
    if use_from(nodes, ir, k2, i2 + 1, id) {
        lemma_last_use_exists(nodes, ir, k2, i2 + 1, id);
    }
}

/// After last-use annotation of a body that had no `Drop` yet, every value with at least one
/// reader has exactly one `Drop`, on its last reader in program order; every other read of it
/// stays bare.
pub proof fn lemma_annotation_exact(old_nodes: Seq<IrNode>, ir: Seq<usize>, new_nodes: Seq<IrNode>, id: usize)
    requires
        body_wf(old_nodes, ir),
        annotation_of(old_nodes, ir, new_nodes),
        forall|k: int, i: int|
            0 <= k < ir.len() && 0 <= i < old_nodes[ir[k] as int].ops@.len() ==> !(#[trigger] old_nodes[ir[k] as int].ops@[i] is Drop),
    ensures
        forall|k: int, i: int|
            0 <= k < ir.len() && 0 <= i < new_nodes[ir[k] as int].ops@.len() ==> (
            (#[trigger] new_nodes[ir[k] as int].ops@[i] == IrOperand::Drop(Box::new(IrOperand::Out(id))))
                <==> (slot_is(old_nodes, ir, k, i, id) && !use_from(old_nodes, ir, k, i + 1, id))),
        forall|k: int, i: int|
            slot_is(old_nodes, ir, k, i, id) && use_from(old_nodes, ir, k, i + 1, id) ==> #[trigger] new_nodes[ir[k] as int].ops@[i]
                == IrOperand::Out(id),
        use_from(old_nodes, ir, 0, 0, id) ==> exists|k: int, i: int|
            0 <= k < ir.len() && 0 <= i < new_nodes[ir[k] as int].ops@.len() && #[trigger] new_nodes[ir[k] as int].ops@[i]
                == IrOperand::Drop(Box::new(IrOperand::Out(id))),
        forall|k1: int, i1: int, k2: int, i2: int|
            0 <= k1 < ir.len() && 0 <= i1 < new_nodes[ir[k1] as int].ops@.len() && 0 <= k2 < ir.len() && 0 <= i2
                < new_nodes[ir[k2] as int].ops@.len() && #[trigger] new_nodes[ir[k1] as int].ops@[i1] == IrOperand::Drop(
                Box::new(IrOperand::Out(id)),
            ) && #[trigger] new_nodes[ir[k2] as int].ops@[i2] == IrOperand::Drop(Box::new(IrOperand::Out(id))) ==> k1 == k2
                && i1 == i2,
{
    assert forall|k: int, i: int|
        0 <= k < ir.len() && 0 <= i < new_nodes[ir[k] as int].ops@.len() implies (
        (#[trigger] new_nodes[ir[k] as int].ops@[i] == IrOperand::Drop(Box::new(IrOperand::Out(id))))
            <==> (slot_is(old_nodes, ir, k, i, id) && !use_from(old_nodes, ir, k, i + 1, id))) by {
        let _ = new_nodes[ir[k] as int];
        assert(new_nodes[ir[k] as int].ops@[i] == annotated(old_nodes, ir, k, i));
        assert(!(old_nodes[ir[k] as int].ops@[i] is Drop));
    }
    assert forall|k: int, i: int|
        slot_is(old_nodes, ir, k, i, id) && use_from(old_nodes, ir, k, i + 1, id) implies #[trigger] new_nodes[ir[k] as int].ops@[i]
            == IrOperand::Out(id) by {
        let _ = new_nodes[ir[k] as int];
        assert(new_nodes[ir[k] as int].ops@[i] == annotated(old_nodes, ir, k, i));
    }
    if use_from(old_nodes, ir, 0, 0, id) {
        lemma_last_use_exists(old_nodes, ir, 0, 0, id);
        let (k, i) = choose|k: int, i: int| #[trigger] slot_is(old_nodes, ir, k, i, id) && !use_from(old_nodes, ir, k, i + 1, id);
        let _ = new_nodes[ir[k] as int];
        assert(new_nodes[ir[k] as int].ops@[i] == annotated(old_nodes, ir, k, i));
    }
    assert forall|k1: int, i1: int, k2: int, i2: int|
        0 <= k1 < ir.len() && 0 <= i1 < new_nodes[ir[k1] as int].ops@.len() && 0 <= k2 < ir.len() && 0 <= i2
            < new_nodes[ir[k2] as int].ops@.len() && #[trigger] new_nodes[ir[k1] as int].ops@[i1] == IrOperand::Drop(
            Box::new(IrOperand::Out(id)),
        ) && #[trigger] new_nodes[ir[k2] as int].ops@[i2] == IrOperand::Drop(Box::new(IrOperand::Out(id))) implies k1 == k2
            && i1 == i2 by {
        let _ = new_nodes[ir[k1] as int];
        let _ = new_nodes[ir[k2] as int];
        assert(new_nodes[ir[k1] as int].ops@[i1] == annotated(old_nodes, ir, k1, i1));
        assert(new_nodes[ir[k2] as int].ops@[i2] == annotated(old_nodes, ir, k2, i2));
        assert(!(old_nodes[ir[k1] as int].ops@[i1] is Drop));
        assert(!(old_nodes[ir[k2] as int].ops@[i2] is Drop));
        if k1 < k2 || (k1 == k2 && i1 < i2) {
            assert(slot_is(old_nodes, ir, k2, i2, id));
            assert(k2 > k1 || (k2 == k1 && i2 >= i1 + 1));
        } else if k2 < k1 || (k1 == k2 && i2 < i1) {
            assert(slot_is(old_nodes, ir, k1, i1, id));
            assert(k1 > k2 || (k1 == k2 && i1 >= i2 + 1));
        }
    }
}

/// Every node of an allocated body that produces a value has an allocation.
pub proof fn lemma_allocation_coverage(arch: TargetArch, nodes: Seq<IrNode>, ir: Seq<usize>, out: Seq<AllocatedIrNode>)
    requires
        allocation_of(arch, nodes, ir, out),
    ensures
        forall|k: int| 0 <= k < ir.len() && nodes[ir[k] as int].has_out ==> (#[trigger] out[k]).alloc is Some,
{
    assert forall|k: int| 0 <= k < ir.len() && nodes[ir[k] as int].has_out implies (#[trigger] out[k]).alloc is Some by {}
}

/// Every bare read of a value is bound to the allocation of the node that produced it.
pub proof fn lemma_allocation_consistency(arch: TargetArch, nodes: Seq<IrNode>, ir: Seq<usize>, out: Seq<AllocatedIrNode>)
    requires
        allocation_of(arch, nodes, ir, out),
    ensures
        forall|k: int, i: int|
            0 <= k < ir.len() && 0 <= i < nodes[ir[k] as int].ops@.len() && (#[trigger] nodes[ir[k] as int].ops@[i]) is Out
                ==> exists|j: int|
                0 <= j < k && ir[j] == nodes[ir[k] as int].ops@[i]->Out_0 && #[trigger] out[j].alloc == Some(out[k].ops@[i]),
{
    assert forall|k: int, i: int|
        0 <= k < ir.len() && 0 <= i < nodes[ir[k] as int].ops@.len() && (#[trigger] nodes[ir[k] as int].ops@[i]) is Out
            implies exists|j: int|
            0 <= j < k && ir[j] == nodes[ir[k] as int].ops@[i]->Out_0 && #[trigger] out[j].alloc == Some(out[k].ops@[i]) by {
        let _ = out[k];
        assert(resolves_to(arch, ir, out, k, nodes[ir[k] as int].ops@[i], out[k].ops@[i]));
    }
}

/// Compiling and then reading back, as far as the round trip holds: when the instructions a
/// function compiled to are read back successfully, the allocated nodes read back lower to
/// exactly the instructions that the pipeline's allocation of the function lowered to, and
/// the decompiled body holds the opcodes of those read-back nodes, in order. Those opcodes
/// need not be the function's own: different nodes can lower to the same instructions (a
/// copy into the return register followed by a return lowers as a return of the copied
/// value), and the read-back takes one reading of them. Reading back can also fail, for
/// instance on the stack pointer, which is neither written by a node nor an argument.
pub proof fn lemma_round_trip(arch: TargetArch, nodes: Seq<IrNode>, ir: Seq<usize>, func: FuncAsm, f: Function)
    requires
        compiled_from(arch, nodes, ir, insts_view(func.insts@)),
        decompiled_from(arch, func, f),
    ensures
        exists|out: Seq<AllocatedIrNode>, read_back: Seq<AllocatedIrNode>|
            pipeline_allocation(arch, nodes, ir, out) && disassembly_of(arch, func.insts@, read_back)
                && lowered_all(spec_table(arch), out) == lowered_all(spec_table(arch), read_back)
                && f.opcodes() == read_back.map_values(|n: AllocatedIrNode| n.opcode),
{
    let out = choose|out: Seq<AllocatedIrNode>|
        pipeline_allocation(arch, nodes, ir, out) && lowered_all(spec_table(arch), out) == Some(insts_view(func.insts@));
    let read_back = choose|rb: Seq<AllocatedIrNode>|
        disassembly_of(arch, func.insts@, rb) && dealloc_of(arch, node_views(rb), f.nodes@);
    assert forall|k: int| 0 <= k < f.ir@.len() implies #[trigger] f.opcodes()[k] == read_back.map_values(
        |n: AllocatedIrNode| n.opcode,
    )[k] by {
        assert(f.ir@.len() == f.nodes@.len());
        assert(f.ir.len() == f.ir@.len());
        assert(f.nodes@.len() == read_back.len());
        assert(f.ir@[k] == k as usize);
        let _ = f.nodes@[k];
        assert(f.nodes@[k].opcode == node_views(read_back)[k].opcode);
        assert(node_views(read_back)[k] == read_back[k]@);
        assert(f.opcodes()[k] == f.nodes@[f.ir@[k] as int].opcode);
        assert(read_back.map_values(|n: AllocatedIrNode| n.opcode)[k] == read_back[k].opcode);
    }
    assert(f.opcodes() =~= read_back.map_values(|n: AllocatedIrNode| n.opcode));
}

/// The decompiler recognises every argument position where the calling convention puts it.
pub proof fn lemma_arg_symmetry(arch: TargetArch, n: usize)
    ensures
        spec_num_for_arg(arch, spec_arg_location(arch, n, TypeMetadata::Int64)) == Some(n),
{
    let regs = spec_arg_regs(arch);
    if n < regs.len() {
        lemma_num_for_arg_reg(arch, n as int, spec_arg_location(arch, n, TypeMetadata::Int64));
    }
}

/// The caller-saved and callee-saved registers split the general-purpose registers: no
/// register is in both, and a register is general-purpose exactly when it is in one.
pub proof fn lemma_saved_partition(arch: TargetArch, r: usize)
    ensures
        !(spec_caller_saved(arch).contains(r) && spec_callee_saved(arch).contains(r)),
        spec_gprs(arch).contains(r) <==> (spec_caller_saved(arch).contains(r) || spec_callee_saved(arch).contains(r)),
{
    let g = spec_gprs(arch);
    let a = spec_caller_saved(arch);
    let b = spec_callee_saved(arch);
    match arch {
        TargetArch::X86 => {
            if g.contains(r) {
                let i = choose|i: int| 0 <= i < g.len() && g[i] == r;
                if i < 9 {
                    assert(a[i] == r);
                } else {
                    assert(b[i - 9] == r);
                }
            }
            if a.contains(r) {
                let i = choose|i: int| 0 <= i < a.len() && a[i] == r;
                assert(g[i] == r);
            }
            if b.contains(r) {
                let i = choose|i: int| 0 <= i < b.len() && b[i] == r;
                assert(g[i + 9] == r);
            }
        },
        TargetArch::Aarch64 => {
            if g.contains(r) {
                if r < 8 {
                    assert(a[r as int] == r);
                } else {
                    assert(b[r - 8] == r);
                }
            }
            if a.contains(r) {
                let i = choose|i: int| 0 <= i < a.len() && a[i] == r;
                assert(g[i] == r);
            }
            if b.contains(r) {
                let i = choose|i: int| 0 <= i < b.len() && b[i] == r;
                assert(g[i + 8] == r);
            }
        },
        TargetArch::Riscv64 => {
            if g.contains(r) {
                if r < 12 {
                    assert(a[r as int] == r);
                } else {
                    assert(b[r - 12] == r);
                }
            }
            if a.contains(r) {
                let i = choose|i: int| 0 <= i < a.len() && a[i] == r;
                assert(g[i] == r);
            }
            if b.contains(r) {
                let i = choose|i: int| 0 <= i < b.len() && b[i] == r;
                assert(g[i + 12] == r);
            }
        },
    }
}

} // verus!
