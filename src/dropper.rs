use vstd::prelude::*;
use crate::ir::{body_wf, clone_operands, Function, IrNode, IrOperand};

verus! {

/// Whether operand slot `i` of body position `k` exists and reads node `id` bare.
pub open spec fn slot_is(nodes: Seq<IrNode>, ir: Seq<usize>, k: int, i: int, id: usize) -> bool {
    &&& 0 <= k < ir.len()
    &&& 0 <= i < nodes[ir[k] as int].ops@.len()
    &&& nodes[ir[k] as int].ops@[i] == IrOperand::Out(id)
}

/// Whether node `id` is read bare at slot `(k, i)` or at a slot after it in program order.
pub open spec fn use_from(nodes: Seq<IrNode>, ir: Seq<usize>, k: int, i: int, id: usize) -> bool {
    exists|k2: int, i2: int|
        (k2 > k || (k2 == k && i2 >= i)) && #[trigger] slot_is(nodes, ir, k2, i2, id)
}

/// The operand at slot `(k, i)` after annotation: a bare read that no later slot repeats is
/// the last use of its value and is wrapped in `Drop`; every other operand stays.
pub open spec fn annotated(nodes: Seq<IrNode>, ir: Seq<usize>, k: int, i: int) -> IrOperand {
    let op = nodes[ir[k] as int].ops@[i];
    match op {
        IrOperand::Out(id) => if use_from(nodes, ir, k, i + 1, id) {
            op
        } else {
            IrOperand::Drop(Box::new(op))
        },
        _ => op,
    }
}

/// The arena after annotation, related to the arena before: nodes outside the body stay,
/// body nodes keep everything but their operands, which become `annotated`.
pub open spec fn annotation_of(old_nodes: Seq<IrNode>, ir: Seq<usize>, new_nodes: Seq<IrNode>) -> bool {
    &&& new_nodes.len() == old_nodes.len()
    &&& forall|n: int| 0 <= n < old_nodes.len() && !ir.contains(n as usize) ==> new_nodes[n] == old_nodes[n]
    &&& forall|k: int|
        0 <= k < ir.len() ==> {
            let a = #[trigger] new_nodes[ir[k] as int];
            let b = old_nodes[ir[k] as int];
            &&& a.opcode == b.opcode
            &&& a.has_out == b.has_out
            &&& a.ty == b.ty
            &&& a.ops@.len() == b.ops@.len()
            &&& forall|i: int| 0 <= i < b.ops@.len() ==> a.ops@[i] == annotated(old_nodes, ir, k, i)
        }
}

proof fn lemma_use_from_end(nodes: Seq<IrNode>, ir: Seq<usize>, k: int, id: usize)
    requires
        0 <= k < ir.len(),
    ensures
        use_from(nodes, ir, k, nodes[ir[k] as int].ops@.len() as int, id) == use_from(nodes, ir, k + 1, 0, id),
{
    let len = nodes[ir[k] as int].ops@.len() as int;
    if use_from(nodes, ir, k, len, id) {
        let (k2, i2) = choose|k2: int, i2: int|
            (k2 > k || (k2 == k && i2 >= len)) && #[trigger] slot_is(nodes, ir, k2, i2, id);
        assert(k2 > k);
        assert(k2 > k + 1 || (k2 == k + 1 && i2 >= 0));
    }
    if use_from(nodes, ir, k + 1, 0, id) {
        let (k2, i2) = choose|k2: int, i2: int|
            (k2 > k + 1 || (k2 == k + 1 && i2 >= 0)) && #[trigger] slot_is(nodes, ir, k2, i2, id);
        assert(k2 > k);
    }
}

proof fn lemma_use_from_step(nodes: Seq<IrNode>, ir: Seq<usize>, k: int, i: int, id: usize)
    requires
        0 <= k < ir.len(),
        0 <= i < nodes[ir[k] as int].ops@.len(),
    ensures
        use_from(nodes, ir, k, i, id) == (use_from(nodes, ir, k, i + 1, id) || slot_is(nodes, ir, k, i, id)),
{
    if use_from(nodes, ir, k, i, id) {
        let (k2, i2) = choose|k2: int, i2: int|
            (k2 > k || (k2 == k && i2 >= i)) && #[trigger] slot_is(nodes, ir, k2, i2, id);
        if !(k2 == k && i2 == i) {
            assert(k2 > k || (k2 == k && i2 >= i + 1));
        }
    }
    if slot_is(nodes, ir, k, i, id) {
        assert(k == k && i >= i);
    }
}

/// Wraps the last use of every value in `Drop`, walking the body from its end and
/// remembering which values have already been seen.
pub fn annotate_last_uses(nodes: &mut Vec<IrNode>, ir: &Vec<usize>)
    requires
        body_wf(old(nodes)@, ir@),
    ensures
        annotation_of(old(nodes)@, ir@, final(nodes)@),
        body_wf(final(nodes)@, ir@),
{
    let ghost orig = nodes@;
    let mut seen: Vec<usize> = Vec::new();
    let mut k: usize = ir.len();
    while k > 0
        invariant
            body_wf(orig, ir@),
            k <= ir@.len(),
            nodes@.len() == orig.len(),
            forall|id: usize| seen@.contains(id) == use_from(orig, ir@, k as int, 0, id),
            forall|n: int|
                0 <= n < orig.len() && (forall|j: int| k <= j < ir@.len() ==> ir@[j] != n as usize)
                    ==> #[trigger] nodes@[n] == orig[n],
            forall|k2: int|
                k <= k2 < ir@.len() ==> {
                    let a = #[trigger] nodes@[ir@[k2] as int];
                    let b = orig[ir@[k2] as int];
                    &&& a.opcode == b.opcode
                    &&& a.has_out == b.has_out
                    &&& a.ty == b.ty
                    &&& a.ops@.len() == b.ops@.len()
                    &&& forall|i: int| 0 <= i < b.ops@.len() ==> a.ops@[i] == annotated(orig, ir@, k2, i)
                },
        decreases k,
    {
        k = k - 1;
        let idx = ir[k];
        let mut ops = clone_operands(&nodes[idx].ops);
        proof {
            assert forall|j: int| k + 1 <= j < ir@.len() implies ir@[j] != idx by {
                assert(ir@[k as int] < ir@[j]);
            }
            assert(nodes@[idx as int] == orig[idx as int]);
            assert forall|id: usize| seen@.contains(id) == use_from(orig, ir@, k as int, ops@.len() as int, id) by {
                lemma_use_from_end(orig, ir@, k as int, id);
            }
        }
        let mut i: usize = ops.len();
        while i > 0
            invariant
                body_wf(orig, ir@),
                k < ir@.len(),
                idx == ir@[k as int],
                ops@.len() == orig[idx as int].ops@.len(),
                i <= ops@.len(),
                forall|id: usize| seen@.contains(id) == use_from(orig, ir@, k as int, i as int, id),
                forall|j: int| 0 <= j < i ==> ops@[j] == orig[idx as int].ops@[j],
                forall|j: int| i <= j < ops@.len() ==> ops@[j] == annotated(orig, ir@, k as int, j),
            decreases i,
        {
            i = i - 1;
            let ghost before = seen@;
            proof {
                assert forall|id: usize| #[trigger] use_from(orig, ir@, k as int, i as int, id) == (use_from(orig, ir@, k as int, i + 1, id) || slot_is(orig, ir@, k as int, i as int, id)) by {
                    lemma_use_from_step(orig, ir@, k as int, i as int, id);
                }
            }
            let ghost cur = ops@[i as int];
            assert(cur == orig[idx as int].ops@[i as int]);
            match &ops[i] {
                IrOperand::Out(n) => {
                    let id = *n;
                    assert(slot_is(orig, ir@, k as int, i as int, id));
                    let mut found = false;
                    let mut s: usize = 0;
                    while s < seen.len()
                        invariant
                            s <= seen@.len(),
                            found == exists|t: int| 0 <= t < s && seen@[t] == id,
                        decreases seen@.len() - s,
                    {
                        if seen[s] == id {
                            found = true;
                        }
                        s = s + 1;
                    }
                    assert(found == seen@.contains(id));
                    if !found {
                        let wrapped = IrOperand::Drop(Box::new(IrOperand::Out(id)));
                        ops.set(i, wrapped);
                        seen.push(id);
                    }
                    proof {
                        assert(found == use_from(orig, ir@, k as int, i + 1, id));
                        assert(ops@[i as int] == annotated(orig, ir@, k as int, i as int));
                        assert forall|x: usize| seen@.contains(x) == use_from(orig, ir@, k as int, i as int, x) by {
                            if x == id {
                                assert(slot_is(orig, ir@, k as int, i as int, x));
                                if !found {
                                    assert(seen@[seen@.len() - 1] == id);
                                } else {
                                    assert(seen@ == before);
                                }
                            } else {
                                if seen@.contains(x) {
                                    if found {
                                        assert(before.contains(x));
                                    } else {
                                        let t = choose|t: int| 0 <= t < seen@.len() && seen@[t] == x;
                                        assert(t < before.len());
                                        assert(before[t] == x);
                                    }
                                }
                                if before.contains(x) {
                                    let t = choose|t: int| 0 <= t < before.len() && before[t] == x;
                                    assert(seen@[t] == x);
                                }
                            }
                        }
                    }
                },
                _ => {
                    proof {
                        assert forall|x: usize| seen@.contains(x) == use_from(orig, ir@, k as int, i as int, x) by {
                            assert(!slot_is(orig, ir@, k as int, i as int, x));
                        }
                    }
                },
            }
        }
        let node = IrNode { opcode: nodes[idx].opcode, ops, has_out: nodes[idx].has_out, ty: nodes[idx].ty };
        nodes.set(idx, node);
        proof {
            assert forall|k2: int| k < k2 < ir@.len() implies #[trigger] ir@[k2] != idx by {
                assert(ir@[k as int] < ir@[k2]);
            }
        }
    }
    proof {
        assert forall|n: int| 0 <= n < orig.len() && !ir@.contains(n as usize) implies nodes@[n] == orig[n] by {
            assert forall|j: int| 0 <= j < ir@.len() implies ir@[j] != n as usize by {
                if ir@[j] == n as usize {
                    assert(ir@.contains(n as usize));
                }
            }
        }
        assert(body_wf(nodes@, ir@));
    }
}

/// Runs the last-use annotation over one function.
pub struct Dropper {
    func: Function,
}

impl Dropper {
    pub closed spec fn function(&self) -> Function {
        self.func
    }

    /// Creates a dropper for `func`
    pub fn new(func: Function) -> (r: Self)
        ensures
            r.function() == func,
    {
        Dropper { func }
    }

    /// Wraps the last use of every value of the body in `Drop`.
    pub fn run(&mut self)
        requires
            old(self).function().wf(),
        ensures
            final(self).function().wf(),
            annotation_of(old(self).function().nodes@, old(self).function().ir@, final(self).function().nodes@),
            final(self).function().ir == old(self).function().ir,
            final(self).function().args == old(self).function().args,
            final(self).function().name == old(self).function().name,
            final(self).function().ret == old(self).function().ret,
            final(self).function().visibility == old(self).function().visibility,
    {
        annotate_last_uses(&mut self.func.nodes, &self.func.ir);
    }

    /// Returns the annotated function
    pub fn get_ir(&self) -> (r: &Function)
        ensures
            *r == self.function(),
    {
        &self.func
    }
}

} // verus!
