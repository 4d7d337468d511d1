use vstd::prelude::*;
use crate::ir::{body_wf, Function, IrNode, IrOperand};

verus! {

/// Whether some node listed in `ids` reads the value of node `id`.
pub open spec fn used_in(nodes: Seq<IrNode>, ids: Seq<usize>, id: usize) -> bool {
    exists|i: int| 0 <= i < ids.len() && nodes[#[trigger] ids[i] as int].uses(id)
}

/// The body that dead-code elimination keeps: walking from the end, a node stays when it
/// is crucial (a return) or when a node kept after it reads its value. So a node stays
/// exactly when its value reaches a crucial node, and order is preserved.
pub open spec fn kept(nodes: Seq<IrNode>, ir: Seq<usize>) -> Seq<usize>
    decreases ir.len(),
{
    if ir.len() == 0 {
        Seq::empty()
    } else {
        let rest = kept(nodes, ir.drop_first());
        if nodes[ir[0] as int].spec_crucial() || used_in(nodes, rest, ir[0]) {
            seq![ir[0]] + rest
        } else {
            rest
        }
    }
}

/// What dead-code elimination keeps lies in the body it started from, and a well-formed body
/// stays well formed.
pub proof fn lemma_kept_wf(nodes: Seq<IrNode>, ir: Seq<usize>)
    requires
        body_wf(nodes, ir),
    ensures
        body_wf(nodes, kept(nodes, ir)),
        forall|i: int| 0 <= i < kept(nodes, ir).len() ==> ir.contains(#[trigger] kept(nodes, ir)[i]),
    decreases ir.len(),
{
    if ir.len() > 0 {
        let tail = ir.drop_first();
        assert(body_wf(nodes, tail)) by {
            assert forall|j: int, k: int| 0 <= j < k < tail.len() implies tail[j] < tail[k] by {
                assert(ir[j + 1] < ir[k + 1]);
            }
            assert forall|k: int| 0 <= k < tail.len() implies #[trigger] tail[k] < nodes.len() by {
                assert(ir[k + 1] < nodes.len());
            }
        }
        lemma_kept_wf(nodes, tail);
        let rest = kept(nodes, tail);
        assert forall|i: int| 0 <= i < rest.len() implies ir[0] < #[trigger] rest[i] && ir.contains(
            rest[i],
        ) by {
            assert(tail.contains(rest[i]));
            let k = choose|k: int| 0 <= k < tail.len() && tail[k] == rest[i];
            assert(ir[k + 1] == rest[i]);
            assert(ir[0] < ir[k + 1]);
        }
        let out = kept(nodes, ir);
        if nodes[ir[0] as int].spec_crucial() || used_in(nodes, rest, ir[0]) {
            assert(out == seq![ir[0]] + rest);
            assert forall|j: int, k: int| 0 <= j < k < out.len() implies out[j] < out[k] by {
                if j == 0 {
                    assert(out[k] == rest[k - 1]);
                } else {
                    assert(out[j] == rest[j - 1] && out[k] == rest[k - 1]);
                }
            }
            assert forall|i: int| 0 <= i < out.len() implies ir.contains(#[trigger] out[i]) by {
                if i == 0 {
                    assert(ir[0] == out[0]);
                } else {
                    assert(out[i] == rest[i - 1]);
                }
            }
            assert forall|k: int| 0 <= k < out.len() implies #[trigger] out[k] < nodes.len() by {
                assert(ir.contains(out[k]));
            }
        }
    }
}

/// Running dead-code elimination on what it kept keeps everything.
pub proof fn lemma_kept_idempotent(nodes: Seq<IrNode>, ir: Seq<usize>)
    ensures
        kept(nodes, kept(nodes, ir)) == kept(nodes, ir),
    decreases ir.len(),
{
    if ir.len() > 0 {
        let rest = kept(nodes, ir.drop_first());
        lemma_kept_idempotent(nodes, ir.drop_first());
        if nodes[ir[0] as int].spec_crucial() || used_in(nodes, rest, ir[0]) {
            let out = seq![ir[0]] + rest;
            assert(out.drop_first() =~= rest);
            assert(out[0] == ir[0]);
        }
    }
}

/// Whether `op` reads the value of node `id`.
fn operand_refers_to(op: &IrOperand, id: usize) -> (r: bool)
    ensures
        r == op.refers_to(id),
    decreases op,
{
    match op {
        IrOperand::Out(n) => *n == id,
        IrOperand::Drop(inner) => operand_refers_to(&**inner, id),
        _ => false,
    }
}

/// Whether some operand of `node` reads the value of node `id`.
pub fn node_uses(node: &IrNode, id: usize) -> (r: bool)
    ensures
        r == node.uses(id),
{
    let mut i: usize = 0;
    while i < node.ops.len()
        invariant
            i <= node.ops@.len(),
            forall|j: int| 0 <= j < i ==> !(#[trigger] node.ops@[j]).refers_to(id),
        decreases node.ops@.len() - i,
    {
        if operand_refers_to(&node.ops[i], id) {
            return true;
        }
        i = i + 1;
    }
    false
}

/// Whether some node listed in `ids` reads the value of node `id`.
fn used_in_exec(nodes: &Vec<IrNode>, ids: &Vec<usize>, id: usize) -> (r: bool)
    requires
        forall|i: int| 0 <= i < ids@.len() ==> #[trigger] ids@[i] < nodes@.len(),
    ensures
        r == used_in(nodes@, ids@, id),
{
    let mut i: usize = 0;
    while i < ids.len()
        invariant
            i <= ids@.len(),
            forall|i: int| 0 <= i < ids@.len() ==> #[trigger] ids@[i] < nodes@.len(),
            forall|j: int| 0 <= j < i ==> !nodes@[#[trigger] ids@[j] as int].uses(id),
        decreases ids@.len() - i,
    {
        if node_uses(&nodes[ids[i]], id) {
            return true;
        }
        i = i + 1;
    }
    false
}

/// The body kept by dead-code elimination, computed by a walk from the end.
pub fn kept_body(nodes: &Vec<IrNode>, ir: &Vec<usize>) -> (r: Vec<usize>)
    requires
        body_wf(nodes@, ir@),
    ensures
        r@ == kept(nodes@, ir@),
{
    let mut rest: Vec<usize> = Vec::new();
    let mut k: usize = ir.len();
    proof {
        assert(ir@.subrange(k as int, ir@.len() as int) =~= Seq::<usize>::empty());
    }
    while k > 0
        invariant
            body_wf(nodes@, ir@),
            k <= ir@.len(),
            rest@ == kept(nodes@, ir@.subrange(k as int, ir@.len() as int)),
        decreases k,
    {
        let ghost suffix = ir@.subrange(k as int, ir@.len() as int);
        k = k - 1;
        let ghost longer = ir@.subrange(k as int, ir@.len() as int);
        proof {
            assert(longer.drop_first() =~= suffix);
            assert(body_wf(nodes@, suffix)) by {
                assert forall|j: int, l: int| 0 <= j < l < suffix.len() implies suffix[j]
                    < suffix[l] by {
                    assert(ir@[j + k + 1] < ir@[l + k + 1]);
                }
                assert forall|l: int| 0 <= l < suffix.len() implies #[trigger] suffix[l]
                    < nodes@.len() by {
                    assert(ir@[l + k + 1] < nodes@.len());
                }
            }
            lemma_kept_wf(nodes@, suffix);
            assert forall|i: int| 0 <= i < rest@.len() implies #[trigger] rest@[i] < nodes@.len() by {
                assert(suffix.contains(rest@[i]));
            }
        }
        let id = ir[k];
        if nodes[id].crucial() || used_in_exec(nodes, &rest, id) {
            rest.insert(0, id);
            proof {
                assert(rest@ =~= seq![id] + kept(nodes@, suffix));
            }
        }
    }
    proof {
        assert(ir@.subrange(0, ir@.len() as int) =~= ir@);
    }
    rest
}

/// An optimization pass over one function.
pub trait Optimization {
    /// The name of the pass
    fn name(&self) -> (r: &'static str);

    /// Runs the pass on `func`, keeping it well formed.
    fn run(&self, func: &mut Function)
        requires
            old(func).wf(),
        ensures
            final(func).wf(),
    ;
}

/// Dead-code elimination: drops every node whose value reaches no return.
#[derive(Debug, Clone, Copy, PartialEq, Eq, Structural)]
pub struct Dce {}

impl Optimization for Dce {
    fn name(&self) -> (r: &'static str) {
        "Dead Code Elimination"
    }

    /// Keeps exactly the body that `kept` describes; the arena and the signature stay.
    fn run(&self, func: &mut Function)
        ensures
            final(func).ir@ == kept(old(func).nodes@, old(func).ir@),
            final(func).nodes == old(func).nodes,
            final(func).args == old(func).args,
            final(func).name == old(func).name,
            final(func).ret == old(func).ret,
            final(func).visibility == old(func).visibility,
    {
        let body = kept_body(&func.nodes, &func.ir);
        proof {
            lemma_kept_wf(func.nodes@, func.ir@);
        }
        func.ir = body;
    }
}

} // verus!
