use vstd::prelude::*;
use crate::assembly::{insts_view, AsmView, AssemblyInst};
use crate::error::CodegenError;
use crate::ir::{InstrincSettings, InstrincType, IrOpcode};
use crate::regalloc::{copy_allocations, AllocatedIrNode, Allocation, NodeView};

verus! {

/// What kind of storage an input or output of a pattern must be.
#[derive(Debug, Clone, Copy, PartialEq, Eq, Structural)]
pub enum Pos {
    /// A register
    Gr,
    /// A stack slot
    Mem,
    /// An immediate
    Imm,
    /// Anything
    Any,
}

/// An operand expression of a pattern: an input by position, the output, or a fixed location.
#[derive(Debug, Clone, Copy, PartialEq, Eq, Structural)]
pub enum OpExpr {
    /// The input at this position (`in1` is position 0)
    In(usize),
    /// The output
    Out,
    /// A fixed register or value
    Fixed(Allocation),
}

/// A side condition of a pattern.
#[derive(Debug, Clone, Copy, PartialEq, Eq, Structural)]
pub enum Cond {
    /// Both sides denote the same location
    Eq(OpExpr, OpExpr),
    /// The sides denote different locations
    Ne(OpExpr, OpExpr),
}

/// One instruction a pattern emits: a mnemonic and operand expressions.
#[derive(Debug, PartialEq, Eq)]
pub struct Template {
    /// The mnemonic
    pub mnemonic: String,
    /// The operands
    pub ops: Vec<OpExpr>,
}

/// A lowering rule: an opcode with kinds for its inputs and output, side conditions, and the
/// instructions emitted when it applies. Read backwards it is also a disassembly rule.
#[derive(Debug, PartialEq, Eq)]
pub struct Pattern {
    /// The opcode lowered
    pub opcode: IrOpcode,
    /// The kind of each input
    pub ins: Vec<Pos>,
    /// The kind of the output, when the node has one
    pub out: Option<Pos>,
    /// Conditions that must all hold
    pub conds: Vec<Cond>,
    /// The emitted instructions, in order
    pub templates: Vec<Template>,
}

/// The contents of a template.
pub struct TemplateView {
    pub mnemonic: Seq<char>,
    pub ops: Seq<OpExpr>,
}

/// The contents of a pattern.
pub struct PatternView {
    pub opcode: IrOpcode,
    pub ins: Seq<Pos>,
    pub out: Option<Pos>,
    pub conds: Seq<Cond>,
    pub templates: Seq<TemplateView>,
}

impl View for Template {
    type V = TemplateView;

    open spec fn view(&self) -> TemplateView {
        TemplateView { mnemonic: self.mnemonic@, ops: self.ops@ }
    }
}

impl View for Pattern {
    type V = PatternView;

    open spec fn view(&self) -> PatternView {
        PatternView {
            opcode: self.opcode,
            ins: self.ins@,
            out: self.out,
            conds: self.conds@,
            templates: self.templates@.map_values(|t: Template| t@),
        }
    }
}

/// The contents of a pattern table.
pub open spec fn table_view(s: Seq<Pattern>) -> Seq<PatternView> {
    s.map_values(|p: Pattern| p@)
}

/// Whether `a` is storage of kind `p`.
pub open spec fn pos_ok(p: Pos, a: Allocation) -> bool {
    match p {
        Pos::Gr => a is Register,
        Pos::Mem => a is Stack,
        Pos::Imm => a is Imm,
        Pos::Any => true,
    }
}

/// The location an expression denotes for node `n`.
pub open spec fn eval(e: OpExpr, n: NodeView) -> Option<Allocation> {
    match e {
        OpExpr::In(i) => if i < n.ops.len() {
            Some(n.ops[i as int])
        } else {
            None
        },
        OpExpr::Out => n.alloc,
        OpExpr::Fixed(a) => Some(a),
    }
}

/// Whether condition `c` holds for node `n`; both sides must denote a location.
pub open spec fn cond_holds(c: Cond, n: NodeView) -> bool {
    match c {
        Cond::Eq(a, b) => eval(a, n) is Some && eval(b, n) is Some && eval(a, n) == eval(b, n),
        Cond::Ne(a, b) => eval(a, n) is Some && eval(b, n) is Some && eval(a, n) != eval(b, n),
    }
}

/// Whether every operand of the template denotes a location for `n`.
pub open spec fn template_ready(t: TemplateView, n: NodeView) -> bool {
    forall|q: int| 0 <= q < t.ops.len() ==> eval(#[trigger] t.ops[q], n) is Some
}

/// Whether pattern `p` applies to node `n`.
pub open spec fn pattern_matches(p: PatternView, n: NodeView) -> bool {
    &&& p.opcode == n.opcode
    &&& p.ins.len() == n.ops.len()
    &&& forall|i: int| 0 <= i < p.ins.len() ==> pos_ok(#[trigger] p.ins[i], n.ops[i])
    &&& match p.out {
        Some(po) => n.has_out && n.alloc is Some && pos_ok(po, n.alloc.unwrap()),
        None => true,
    }
    &&& forall|c: int| 0 <= c < p.conds.len() ==> cond_holds(#[trigger] p.conds[c], n)
    &&& forall|j: int| 0 <= j < p.templates.len() ==> template_ready(#[trigger] p.templates[j], n)
}

/// The instruction a template emits for `n`.
pub open spec fn expand_one(t: TemplateView, n: NodeView) -> AsmView {
    AsmView { opcode: t.mnemonic, ops: t.ops.map_values(|e: OpExpr| eval(e, n).unwrap()) }
}

/// The instructions pattern `p` emits for `n`.
pub open spec fn expand(p: PatternView, n: NodeView) -> Seq<AsmView> {
    p.templates.map_values(|t: TemplateView| expand_one(t, n))
}

/// The position of the first pattern at or after `i` that applies to `n`.
pub open spec fn first_match_from(pats: Seq<PatternView>, n: NodeView, i: int) -> Option<int>
    decreases pats.len() - i,
{
    if i < 0 || i >= pats.len() {
        None
    } else if pattern_matches(pats[i], n) {
        Some(i)
    } else {
        first_match_from(pats, n, i + 1)
    }
}

/// The instructions `n` lowers to under the table: those of the first pattern that applies.
pub open spec fn lowered(pats: Seq<PatternView>, n: NodeView) -> Option<Seq<AsmView>> {
    match first_match_from(pats, n, 0) {
        Some(i) => Some(expand(pats[i], n)),
        None => None,
    }
}

fn pos_ok_exec(p: Pos, a: &Allocation) -> (r: bool)
    ensures
        r == pos_ok(p, *a),
{
    match p {
        Pos::Gr => a.is_gr(),
        Pos::Mem => a.is_mem(),
        Pos::Imm => a.is_imm(),
        Pos::Any => true,
    }
}

fn eval_exec(e: OpExpr, n: &AllocatedIrNode) -> (r: Option<Allocation>)
    ensures
        r == eval(e, n@),
{
    match e {
        OpExpr::In(i) => if i < n.ops.len() {
            Some(n.ops[i])
        } else {
            None
        },
        OpExpr::Out => n.alloc,
        OpExpr::Fixed(a) => Some(a),
    }
}

fn cond_exec(c: Cond, n: &AllocatedIrNode) -> (r: bool)
    ensures
        r == cond_holds(c, n@),
{
    let (a, b, equal) = match c {
        Cond::Eq(a, b) => (a, b, true),
        Cond::Ne(a, b) => (a, b, false),
    };
    match (eval_exec(a, n), eval_exec(b, n)) {
        (Some(x), Some(y)) => (x == y) == equal,
        _ => false,
    }
}

fn template_ready_exec(t: &Template, n: &AllocatedIrNode) -> (r: bool)
    ensures
        r == template_ready(t@, n@),
{
    let mut q: usize = 0;
    while q < t.ops.len()
        invariant
            q <= t.ops@.len(),
            forall|j: int| 0 <= j < q ==> eval(#[trigger] t.ops@[j], n@) is Some,
        decreases t.ops@.len() - q,
    {
        if eval_exec(t.ops[q], n).is_none() {
            return false;
        }
        q = q + 1;
    }
    true
}

/// Whether pattern `p` applies to node `n`.
pub fn matches_node(p: &Pattern, n: &AllocatedIrNode) -> (r: bool)
    ensures
        r == pattern_matches(p@, n@),
{
    if p.opcode != n.opcode || p.ins.len() != n.ops.len() {
        return false;
    }
    let mut i: usize = 0;
    while i < p.ins.len()
        invariant
            p.ins@.len() == n.ops@.len(),
            i <= p.ins@.len(),
            forall|j: int| 0 <= j < i ==> pos_ok(#[trigger] p.ins@[j], n@.ops[j]),
        decreases p.ins@.len() - i,
    {
        if !pos_ok_exec(p.ins[i], &n.ops[i]) {
            assert(!pos_ok(p@.ins[i as int], n@.ops[i as int]));
            return false;
        }
        i = i + 1;
    }
    match p.out {
        Some(po) => {
            if !n.has_out {
                return false;
            }
            match n.alloc {
                Some(a) => if !pos_ok_exec(po, &a) {
                    return false;
                },
                None => {
                    return false;
                },
            }
        },
        None => {},
    }
    let mut c: usize = 0;
    while c < p.conds.len()
        invariant
            c <= p.conds@.len(),
            forall|j: int| 0 <= j < c ==> cond_holds(#[trigger] p.conds@[j], n@),
        decreases p.conds@.len() - c,
    {
        if !cond_exec(p.conds[c], n) {
            assert(!cond_holds(p@.conds[c as int], n@));
            return false;
        }
        c = c + 1;
    }
    let mut t: usize = 0;
    while t < p.templates.len()
        invariant
            t <= p.templates@.len(),
            forall|j: int| 0 <= j < t ==> template_ready(#[trigger] p@.templates[j], n@),
        decreases p.templates@.len() - t,
    {
        if !template_ready_exec(&p.templates[t], n) {
            proof {
                assert(p@.templates[t as int] == p.templates@[t as int]@);
            }
            return false;
        }
        t = t + 1;
    }
    true
}

fn expand_template(t: &Template, n: &AllocatedIrNode) -> (r: AssemblyInst)
    requires
        template_ready(t@, n@),
    ensures
        r@ == expand_one(t@, n@),
{
    let mut ops: Vec<Allocation> = Vec::new();
    let mut q: usize = 0;
    while q < t.ops.len()
        invariant
            template_ready(t@, n@),
            q <= t.ops@.len(),
            ops@ == t.ops@.take(q as int).map_values(|e: OpExpr| eval(e, n@).unwrap()),
        decreases t.ops@.len() - q,
    {
        let a = eval_exec(t.ops[q], n);
        assert(eval(t.ops@[q as int], n@) is Some);
        ops.push(a.unwrap());
        q = q + 1;
        assert(ops@ =~= t.ops@.take(q as int).map_values(|e: OpExpr| eval(e, n@).unwrap()));
    }
    assert(t.ops@.take(t.ops@.len() as int) =~= t.ops@);
    AssemblyInst { opcode: t.mnemonic.clone(), ops }
}

/// The instructions pattern `p` emits for `n`, which it applies to.
pub fn expand_pattern(p: &Pattern, n: &AllocatedIrNode) -> (r: Vec<AssemblyInst>)
    requires
        pattern_matches(p@, n@),
    ensures
        insts_view(r@) == expand(p@, n@),
{
    let mut r: Vec<AssemblyInst> = Vec::new();
    let mut j: usize = 0;
    while j < p.templates.len()
        invariant
            pattern_matches(p@, n@),
            j <= p.templates@.len(),
            insts_view(r@) == expand(p@, n@).take(j as int),
        decreases p.templates@.len() - j,
    {
        assert(p@.templates[j as int] == p.templates@[j as int]@);
        let inst = expand_template(&p.templates[j], n);
        let ghost before = r@;
        r.push(inst);
        j = j + 1;
        assert(expand(p@, n@)[j - 1] == inst@);
        assert(insts_view(r@) =~= insts_view(before).push(inst@));
        assert(expand(p@, n@).take(j as int) =~= expand(p@, n@).take(j - 1).push(inst@));
        assert(insts_view(r@) =~= expand(p@, n@).take(j as int));
    }
    assert(expand(p@, n@).take(p.templates@.len() as int) =~= expand(p@, n@));
    r
}

/// Lowers `n` with the first pattern of the table that applies to it.
pub fn lower_with(pats: &Vec<Pattern>, n: &AllocatedIrNode) -> (r: Result<Vec<AssemblyInst>, CodegenError>)
    ensures
        match lowered(table_view(pats@), n@) {
            Some(s) => r is Ok && insts_view(r.unwrap()@) == s,
            None => r == Err::<Vec<AssemblyInst>, CodegenError>(CodegenError::UnsupportedOpcode),
        },
{
    let ghost tv = table_view(pats@);
    let mut i: usize = 0;
    while i < pats.len()
        invariant
            i <= pats@.len(),
            tv == table_view(pats@),
            first_match_from(tv, n@, 0) == first_match_from(tv, n@, i as int),
        decreases pats@.len() - i,
    {
        assert(tv[i as int] == pats@[i as int]@);
        if matches_node(&pats[i], n) {
            return Ok(expand_pattern(&pats[i], n));
        }
        i = i + 1;
    }
    Err(CodegenError::UnsupportedOpcode)
}

/// Whether two instruction lists have the same contents.
fn same_insts(a: &Vec<AssemblyInst>, b: &Vec<AssemblyInst>, start: usize) -> (r: bool)
    requires
        start <= b@.len(),
    ensures
        r == (start + a@.len() <= b@.len() && insts_view(a@) == insts_view(b@.subrange(start as int, start + a@.len()))),
{
    if a.len() > b.len() - start {
        return false;
    }
    let blen = b.len();
    let mut i: usize = 0;
    while i < a.len()
        invariant
            start + a@.len() <= b@.len(),
            b@.len() <= usize::MAX,
            i <= a@.len(),
            forall|j: int| 0 <= j < i ==> #[trigger] a@[j]@ == b@[start + j]@,
        decreases a@.len() - i,
    {
        let x = &a[i];
        let y = &b[start + i];
        if x.opcode != y.opcode || x.ops.len() != y.ops.len() {
            assert(insts_view(a@)[i as int] != insts_view(b@.subrange(start as int, start + a@.len()))[i as int]);
            return false;
        }
        let mut q: usize = 0;
        while q < x.ops.len()
            invariant
                start + a@.len() <= b@.len(),
                i < a@.len(),
                *x == a@[i as int],
                *y == b@[start + i],
                x.ops@.len() == y.ops@.len(),
                q <= x.ops@.len(),
                forall|j: int| 0 <= j < q ==> x.ops@[j] == y.ops@[j],
            decreases x.ops@.len() - q,
        {
            if x.ops[q] != y.ops[q] {
                assert(insts_view(a@)[i as int].ops[q as int] != insts_view(b@.subrange(start as int, start + a@.len()))[i as int].ops[q as int]);
                return false;
            }
            q = q + 1;
        }
        assert(x.ops@ =~= y.ops@);
        i = i + 1;
    }
    assert(insts_view(a@) =~= insts_view(b@.subrange(start as int, start + a@.len())));
    true
}

/// The instructions from `start` to the end, as contents.
pub open spec fn window(insts: Seq<AssemblyInst>, start: int) -> Seq<AsmView> {
    insts_view(insts.subrange(start, insts.len() as int))
}

/// The operand that the first occurrence of `v` at or after position `q` of a template's
/// operands reads, given the operands `vals` of the instruction it is matched against.
pub open spec fn first_in_ops(ops: Seq<OpExpr>, vals: Seq<Allocation>, v: OpExpr, q: int) -> Option<Allocation>
    decreases ops.len() - q,
{
    if q < 0 || q >= ops.len() {
        None
    } else if ops[q] == v && q < vals.len() {
        Some(vals[q])
    } else {
        first_in_ops(ops, vals, v, q + 1)
    }
}

/// The operand that the first occurrence of `v` in templates `j` onwards reads, template `j`
/// being matched against instruction `j` of `w`.
pub open spec fn first_in_templates(ts: Seq<TemplateView>, w: Seq<AsmView>, v: OpExpr, j: int) -> Option<Allocation>
    decreases ts.len() - j,
{
    if j < 0 || j >= ts.len() {
        None
    } else {
        let here = if j < w.len() {
            first_in_ops(ts[j].ops, w[j].ops, v, 0)
        } else {
            None
        };
        match here {
            Some(a) => Some(a),
            None => first_in_templates(ts, w, v, j + 1),
        }
    }
}

/// What `v` is bound to through the first equality condition, from condition `c` on, whose
/// other side is a fixed location or occurs in the templates.
pub open spec fn bind_through_conds(p: PatternView, w: Seq<AsmView>, v: OpExpr, c: int) -> Option<Allocation>
    decreases p.conds.len() - c,
{
    if c < 0 || c >= p.conds.len() {
        None
    } else {
        let found = match p.conds[c] {
            Cond::Eq(a, b) => {
                let other = if a == v {
                    Some(b)
                } else if b == v {
                    Some(a)
                } else {
                    None
                };
                match other {
                    Some(OpExpr::Fixed(x)) => Some(x),
                    Some(o) => first_in_templates(p.templates, w, o, 0),
                    None => None,
                }
            },
            _ => None,
        };
        match found {
            Some(x) => Some(x),
            None => bind_through_conds(p, w, v, c + 1),
        }
    }
}

/// The location `v` is bound to when pattern `p` is read against `w`: a fixed location
/// itself, else its first occurrence in the templates, else an equality condition.
pub open spec fn bind_spec(p: PatternView, w: Seq<AsmView>, v: OpExpr) -> Option<Allocation> {
    match v {
        OpExpr::Fixed(a) => Some(a),
        _ => match first_in_templates(p.templates, w, v, 0) {
            Some(a) => Some(a),
            None => bind_through_conds(p, w, v, 0),
        },
    }
}

/// The node pattern `p` reads from `w`, when each of its inputs and its output is bound.
pub open spec fn decode_spec(p: PatternView, w: Seq<AsmView>) -> Option<NodeView> {
    if (forall|i: int| 0 <= i < p.ins.len() ==> (#[trigger] bind_spec(p, w, OpExpr::In(i as usize))) is Some) && (p.out is Some
        ==> bind_spec(p, w, OpExpr::Out) is Some) {
        let alloc = if p.out is Some {
            bind_spec(p, w, OpExpr::Out)
        } else {
            None
        };
        Some(
            NodeView {
                opcode: p.opcode,
                ops: Seq::new(p.ins.len(), |i: int| bind_spec(p, w, OpExpr::In(i as usize)).unwrap()),
                has_out: alloc is Some,
                ty: match alloc {
                    Some(a) => a.spec_ty(),
                    None => None,
                },
                alloc,
            },
        )
    } else {
        None
    }
}

/// Whether pattern `i` of the table, which has `len` templates, reads the first `len`
/// instructions of `w` as a node that the table lowers back to exactly those instructions.
pub open spec fn accepts(pats: Seq<PatternView>, w: Seq<AsmView>, i: int, len: int) -> bool {
    &&& 0 <= i < pats.len()
    &&& 1 <= len <= w.len()
    &&& pats[i].templates.len() == len
    &&& decode_spec(pats[i], w) is Some
    &&& lowered(pats, decode_spec(pats[i], w).unwrap()) == Some(w.take(len))
}

/// Whether pattern `i` with `len` templates is the reading taken: it accepts, and no
/// pattern with more templates, nor an earlier one with as many, accepts.
pub open spec fn first_accepted(pats: Seq<PatternView>, w: Seq<AsmView>, i: int, len: int) -> bool {
    &&& accepts(pats, w, i, len)
    &&& forall|i2: int, l2: int| #[trigger] accepts(pats, w, i2, l2) ==> l2 < len || (l2 == len && i2 >= i)
}

fn bind_in_templates(p: &Pattern, v: OpExpr, insts: &Vec<AssemblyInst>, start: usize) -> (r: Option<Allocation>)
    requires
        start <= insts@.len(),
    ensures
        r == first_in_templates(p@.templates, window(insts@, start as int), v, 0),
{
    let ghost w = window(insts@, start as int);
    let ghost ts = p@.templates;
    let mut j: usize = 0;
    while j < p.templates.len()
        invariant
            start <= insts@.len(),
            w == window(insts@, start as int),
            ts == p@.templates,
            j <= p.templates@.len(),
            first_in_templates(ts, w, v, 0) == first_in_templates(ts, w, v, j as int),
        decreases p.templates@.len() - j,
    {
        assert(ts[j as int] == p.templates@[j as int]@);
        if j < insts.len() - start {
            let t = &p.templates[j];
            let inst = &insts[start + j];
            assert(w[j as int] == inst@);
            let mut q: usize = 0;
            while q < t.ops.len()
                invariant
                    q <= t.ops@.len(),
                    first_in_ops(t.ops@, inst.ops@, v, 0) == first_in_ops(t.ops@, inst.ops@, v, q as int),
                    first_in_templates(ts, w, v, 0) == first_in_templates(ts, w, v, j as int),
                    ts == p@.templates,
                    w == window(insts@, start as int),
                    j < ts.len(),
                    j < w.len(),
                    ts[j as int] == t@,
                    w[j as int] == inst@,
                decreases t.ops@.len() - q,
            {
                if t.ops[q] == v && q < inst.ops.len() {
                    proof {
                        assert(first_in_ops(t.ops@, inst.ops@, v, q as int) == Some(inst.ops@[q as int]));
                        assert(ts[j as int].ops == t.ops@);
                        assert(w[j as int].ops == inst.ops@);
                        assert(first_in_templates(ts, w, v, j as int) == first_in_ops(ts[j as int].ops, w[j as int].ops, v, 0));
                    }
                    return Some(inst.ops[q]);
                }
                q = q + 1;
            }
        }
        j = j + 1;
    }
    None
}

/// Where `v` is bound when pattern `p` is read against the instructions from `start` on.
fn bind(p: &Pattern, v: OpExpr, insts: &Vec<AssemblyInst>, start: usize) -> (r: Option<Allocation>)
    requires
        start <= insts@.len(),
    ensures
        r == bind_spec(p@, window(insts@, start as int), v),
{
    let ghost w = window(insts@, start as int);
    if let OpExpr::Fixed(a) = v {
        return Some(a);
    }
    let direct = bind_in_templates(p, v, insts, start);
    if direct.is_some() {
        return direct;
    }
    let mut c: usize = 0;
    while c < p.conds.len()
        invariant
            start <= insts@.len(),
            w == window(insts@, start as int),
            c <= p.conds@.len(),
            bind_through_conds(p@, w, v, 0) == bind_through_conds(p@, w, v, c as int),
            first_in_templates(p@.templates, w, v, 0) is None,
            !(v is Fixed),
        decreases p.conds@.len() - c,
    {
        if let Cond::Eq(a, b) = p.conds[c] {
            let other = if a == v {
                Some(b)
            } else if b == v {
                Some(a)
            } else {
                None
            };
            if let Some(o) = other {
                let found = match o {
                    OpExpr::Fixed(x) => Some(x),
                    _ => bind_in_templates(p, o, insts, start),
                };
                if found.is_some() {
                    return found;
                }
            }
        }
        c = c + 1;
    }
    None
}

/// Reads the node that pattern `p` stands for at the instructions from `start` on.
fn decode_with(p: &Pattern, insts: &Vec<AssemblyInst>, start: usize) -> (r: Option<AllocatedIrNode>)
    requires
        start <= insts@.len(),
    ensures
        match decode_spec(p@, window(insts@, start as int)) {
            Some(n) => r is Some && r.unwrap()@ == n,
            None => r is None,
        },
{
    let ghost w = window(insts@, start as int);
    let mut ops: Vec<Allocation> = Vec::new();
    let mut i: usize = 0;
    while i < p.ins.len()
        invariant
            start <= insts@.len(),
            w == window(insts@, start as int),
            i <= p.ins@.len(),
            ops@.len() == i,
            forall|t: int| 0 <= t < i ==> (#[trigger] bind_spec(p@, w, OpExpr::In(t as usize))) is Some,
            forall|t: int| 0 <= t < i ==> #[trigger] ops@[t] == bind_spec(p@, w, OpExpr::In(t as usize)).unwrap(),
        decreases p.ins@.len() - i,
    {
        match bind(p, OpExpr::In(i), insts, start) {
            Some(a) => ops.push(a),
            None => {
                assert(bind_spec(p@, w, OpExpr::In(i as int as usize)) is None);
                return None;
            },
        }
        i = i + 1;
    }
    let alloc = match p.out {
        Some(_) => match bind(p, OpExpr::Out, insts, start) {
            Some(a) => Some(a),
            None => {
                return None;
            },
        },
        None => None,
    };
    let ty = match alloc {
        Some(a) => a.get_ty(),
        None => None,
    };
    let n = AllocatedIrNode { opcode: p.opcode, ops, has_out: alloc.is_some(), ty, alloc };
    proof {
        let d = decode_spec(p@, w);
        assert(d is Some);
        assert(n@.ops =~= d.unwrap().ops);
    }
    Some(n)
}

/// Whether some node read from the instructions at `start`, `len` of them, lowers back to
/// exactly those instructions.
pub open spec fn decodes_at(
    pats: Seq<PatternView>,
    insts: Seq<AssemblyInst>,
    start: int,
    len: int,
    n: AllocatedIrNode,
) -> bool {
    &&& 1 <= len
    &&& start + len <= insts.len()
    &&& lowered(pats, n@) == Some(insts_view(insts.subrange(start, start + len)))
}

/// Reads one IR node back from the instructions at `start`. Patterns with more templates are
/// tried first, and among those with as many, the earlier in the table; a pattern's reading
/// is taken when the table lowers it back to exactly the instructions it covers. Returns how
/// many instructions were consumed.
pub fn disasm_with(pats: &Vec<Pattern>, insts: &Vec<AssemblyInst>, start: usize) -> (r: Result<(usize, AllocatedIrNode), CodegenError>)
    requires
        start <= insts@.len(),
    ensures
        start == insts@.len() ==> r == Err::<(usize, AllocatedIrNode), CodegenError>(CodegenError::EmptyFunction),
        r matches Ok((used, n)) ==> decodes_at(table_view(pats@), insts@, start as int, used as int, n),
        r is Ok ==> exists|i: int|
            #[trigger] first_accepted(table_view(pats@), window(insts@, start as int), i, r.unwrap().0 as int)
                && r.unwrap().1@ == decode_spec(table_view(pats@)[i], window(insts@, start as int)).unwrap(),
        r matches Err(e) ==> (e == CodegenError::EmptyFunction || e == CodegenError::UnsupportedInstruction),
        start < insts@.len() && r is Err ==> forall|i: int, l: int| !accepts(table_view(pats@), window(insts@, start as int), i, l),
        start < insts@.len() && r is Err ==> r == Err::<(usize, AllocatedIrNode), CodegenError>(CodegenError::UnsupportedInstruction),
{
    if start == insts.len() {
        return Err(CodegenError::EmptyFunction);
    }
    let ghost tv = table_view(pats@);
    let ghost w = window(insts@, start as int);
    let mut longest: usize = 0;
    let mut i: usize = 0;
    while i < pats.len()
        invariant
            i <= pats@.len(),
            tv == table_view(pats@),
            forall|j: int| 0 <= j < i ==> #[trigger] tv[j].templates.len() <= longest,
        decreases pats@.len() - i,
    {
        if pats[i].templates.len() > longest {
            longest = pats[i].templates.len();
        }
        i = i + 1;
    }
    let mut len: usize = longest;
    while len > 0
        invariant
            start < insts@.len(),
            tv == table_view(pats@),
            w == window(insts@, start as int),
            len <= longest,
            forall|j: int| 0 <= j < pats@.len() ==> #[trigger] tv[j].templates.len() <= longest,
            forall|i2: int, l2: int| l2 > len ==> !accepts(tv, w, i2, l2),
        decreases len,
    {
        if len <= insts.len() - start {
            let mut i: usize = 0;
            while i < pats.len()
                invariant
                    start < insts@.len(),
                    tv == table_view(pats@),
                    w == window(insts@, start as int),
                    1 <= len,
                    start + len <= insts@.len(),
                    i <= pats@.len(),
                    forall|i2: int, l2: int| l2 > len ==> !accepts(tv, w, i2, l2),
                    forall|i2: int| 0 <= i2 < i ==> !accepts(tv, w, i2, len as int),
                decreases pats@.len() - i,
            {
                assert(tv[i as int] == pats@[i as int]@);
                if pats[i].templates.len() == len {
                    if let Some(n) = decode_with(&pats[i], insts, start) {
                        if let Ok(back) = lower_with(pats, &n) {
                            if back.len() == len && same_insts(&back, insts, start) {
                                proof {
                                    assert(w.take(len as int) =~= insts_view(insts@.subrange(start as int, start + len)));
                                    assert(first_accepted(tv, w, i as int, len as int));
                                }
                                let result: Result<(usize, AllocatedIrNode), CodegenError> = Ok((len, n));
                                proof {
                                    assert(first_accepted(tv, w, i as int, result.unwrap().0 as int));
                                }
                                return result;
                            }
                            proof {
                                assert(w.take(len as int) =~= insts_view(insts@.subrange(start as int, start + len)));
                            }
                        }
                    }
                }
                i = i + 1;
            }
        }
        len = len - 1;
    }
    Err(CodegenError::UnsupportedInstruction)
}

/// Builds a template from a mnemonic and operand expressions.
pub fn template(mnemonic: &str, ops: Vec<OpExpr>) -> (r: Template)
    ensures
        r@ == (TemplateView { mnemonic: mnemonic@, ops: ops@ }),
{
    Template { mnemonic: mnemonic.to_string(), ops }
}

/// The lowering table of a three-address target: `mov` names its register move, `ret_reg`
/// and `sp` are the return-value and stack-pointer registers.
pub open spec fn three_address_table(mov: Seq<char>, ret_reg: Allocation, sp: Allocation) -> Seq<PatternView> {
    seq![
        PatternView {
            opcode: IrOpcode::Add,
            ins: seq![Pos::Gr, Pos::Gr],
            out: Some(Pos::Gr),
            conds: seq![],
            templates: seq![TemplateView { mnemonic: "add"@, ops: seq![OpExpr::Out, OpExpr::In(0), OpExpr::In(1)] }],
        },
        PatternView {
            opcode: IrOpcode::Sub,
            ins: seq![Pos::Gr, Pos::Gr],
            out: Some(Pos::Gr),
            conds: seq![],
            templates: seq![TemplateView { mnemonic: "sub"@, ops: seq![OpExpr::Out, OpExpr::In(0), OpExpr::In(1)] }],
        },
        PatternView {
            opcode: IrOpcode::Ret,
            ins: seq![Pos::Gr],
            out: None,
            conds: seq![Cond::Eq(OpExpr::In(0), OpExpr::Fixed(ret_reg))],
            templates: seq![TemplateView { mnemonic: "ret"@, ops: seq![] }],
        },
        PatternView {
            opcode: IrOpcode::Ret,
            ins: seq![Pos::Any],
            out: None,
            conds: seq![Cond::Ne(OpExpr::In(0), OpExpr::Fixed(ret_reg))],
            templates: seq![
                TemplateView { mnemonic: mov, ops: seq![OpExpr::Fixed(ret_reg), OpExpr::In(0)] },
                TemplateView { mnemonic: "ret"@, ops: seq![] },
            ],
        },
        PatternView {
            opcode: IrOpcode::Copy,
            ins: seq![Pos::Gr],
            out: Some(Pos::Gr),
            conds: seq![],
            templates: seq![TemplateView { mnemonic: mov, ops: seq![OpExpr::Out, OpExpr::In(0)] }],
        },
        PatternView {
            opcode: IrOpcode::InstrincCall(InstrincSettings { instrinc: InstrincType::GetStackPointer }),
            ins: seq![],
            out: Some(Pos::Gr),
            conds: seq![],
            templates: seq![TemplateView { mnemonic: mov, ops: seq![OpExpr::Out, OpExpr::Fixed(sp)] }],
        },
    ]
}

/// Builds the lowering table of a three-address target.
pub fn three_address_patterns(mov: &str, ret_reg: Allocation, sp: Allocation) -> (r: Vec<Pattern>)
    ensures
        table_view(r@) == three_address_table(mov@, ret_reg, sp),
{
    let mut r: Vec<Pattern> = Vec::new();
    r.push(Pattern {
        opcode: IrOpcode::Add,
        ins: vec![Pos::Gr, Pos::Gr],
        out: Some(Pos::Gr),
        conds: vec![],
        templates: vec![template("add", vec![OpExpr::Out, OpExpr::In(0), OpExpr::In(1)])],
    });
    r.push(Pattern {
        opcode: IrOpcode::Sub,
        ins: vec![Pos::Gr, Pos::Gr],
        out: Some(Pos::Gr),
        conds: vec![],
        templates: vec![template("sub", vec![OpExpr::Out, OpExpr::In(0), OpExpr::In(1)])],
    });
    r.push(Pattern {
        opcode: IrOpcode::Ret,
        ins: vec![Pos::Gr],
        out: None,
        conds: vec![Cond::Eq(OpExpr::In(0), OpExpr::Fixed(ret_reg))],
        templates: vec![template("ret", vec![])],
    });
    r.push(Pattern {
        opcode: IrOpcode::Ret,
        ins: vec![Pos::Any],
        out: None,
        conds: vec![Cond::Ne(OpExpr::In(0), OpExpr::Fixed(ret_reg))],
        templates: vec![template(mov, vec![OpExpr::Fixed(ret_reg), OpExpr::In(0)]), template("ret", vec![])],
    });
    r.push(Pattern {
        opcode: IrOpcode::Copy,
        ins: vec![Pos::Gr],
        out: Some(Pos::Gr),
        conds: vec![],
        templates: vec![template(mov, vec![OpExpr::Out, OpExpr::In(0)])],
    });
    r.push(Pattern {
        opcode: IrOpcode::InstrincCall(InstrincSettings::get_stack_ptr()),
        ins: vec![],
        out: Some(Pos::Gr),
        conds: vec![],
        templates: vec![template(mov, vec![OpExpr::Out, OpExpr::Fixed(sp)])],
    });
    proof {
        let t = three_address_table(mov@, ret_reg, sp);
        let v = table_view(r@);
        assert forall|i: int| 0 <= i < 6 implies #[trigger] v[i] == t[i] by {
            assert(v[i].ins =~= t[i].ins);
            assert(v[i].conds =~= t[i].conds);
            assert(v[i].templates.len() == t[i].templates.len());
            assert forall|j: int| 0 <= j < v[i].templates.len() implies #[trigger] v[i].templates[j] == t[i].templates[j] by {
                assert(v[i].templates[j].ops =~= t[i].templates[j].ops);
            }
            assert(v[i].templates =~= t[i].templates);
        }
        assert(v =~= t);
    }
    r
}

} // verus!
