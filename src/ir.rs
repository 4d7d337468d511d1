use vstd::prelude::*;
use crate::ty::TypeMetadata;

verus! {

/// The kinds of intrinsic that an IR node can call.
#[derive(Debug, Clone, Copy, PartialEq, Eq, Structural, Hash)]
pub enum InstrincType {
    /// Yields the current stack pointer
    GetStackPointer,
}

/// The settings of an intrinsic call.
#[derive(Debug, Clone, Copy, PartialEq, Eq, Structural, Hash)]
pub struct InstrincSettings {
    /// Which intrinsic is called
    pub instrinc: InstrincType,
}

impl InstrincSettings {
    /// The settings of the intrinsic that reads the stack pointer.
    pub fn get_stack_ptr() -> (r: Self)
        ensures
            r.instrinc == InstrincType::GetStackPointer,
    {
        InstrincSettings { instrinc: InstrincType::GetStackPointer }
    }
}

/// The operation an IR node performs.
#[derive(Debug, Clone, Copy, PartialEq, Eq, Structural, Hash)]
pub enum IrOpcode {
    /// Integer addition
    Add,
    /// Integer subtraction
    Sub,
    /// Return to the caller
    Ret,
    /// Copy a value into a new location
    Copy,
    /// Call an intrinsic
    InstrincCall(InstrincSettings),
}

/// Who may see a function from outside its module.
#[derive(Debug, Clone, Copy, PartialEq, Eq, Structural, Hash)]
pub enum Visibilty {
    /// Only visible inside the module
    Internal,
    /// Visible to every linked module
    Public,
}

/// Something an IR node reads. Nodes live in their function's arena and are referred to
/// by their index there, so two operands denote the same value exactly when they hold
/// the same index.
#[derive(Debug, PartialEq, Eq)]
pub enum IrOperand {
    /// The `num`-th parameter of the enclosing function
    Arg { num: usize, ty: TypeMetadata },
    /// An inline integer literal
    ConstNum { num: usize, ty: TypeMetadata },
    /// The output of the node with this index in the function's arena
    Out(usize),
    /// The last use of the wrapped operand: its storage may be reused afterwards
    Drop(Box<IrOperand>),
}

impl IrOperand {
    /// Whether this operand reads the value produced by node `id`, directly or under `Drop`.
    pub open spec fn refers_to(&self, id: usize) -> bool
        decreases self,
    {
        match self {
            IrOperand::Out(n) => *n == id,
            IrOperand::Drop(inner) => inner.refers_to(id),
            _ => false,
        }
    }

    /// The type of the operand, looking produced values up in `nodes`.
    pub open spec fn spec_ty(&self, nodes: Seq<IrNode>) -> Option<TypeMetadata>
        decreases self,
    {
        match self {
            IrOperand::Arg { ty, .. } => Some(*ty),
            IrOperand::ConstNum { ty, .. } => Some(*ty),
            IrOperand::Out(n) => if *n < nodes.len() {
                nodes[*n as int].ty
            } else {
                None
            },
            IrOperand::Drop(inner) => inner.spec_ty(nodes),
        }
    }

    /// Returns the type of the operand; `None` for a reference to a node that does not
    /// exist in `nodes` or that produces no typed value.
    pub fn get_ty(&self, nodes: &Vec<IrNode>) -> (r: Option<TypeMetadata>)
        ensures
            r == self.spec_ty(nodes@),
        decreases self,
    {
        match self {
            IrOperand::Arg { ty, .. } => Some(*ty),
            IrOperand::ConstNum { ty, .. } => Some(*ty),
            IrOperand::Out(n) => if *n < nodes.len() {
                nodes[*n].ty
            } else {
                None
            },
            IrOperand::Drop(inner) => inner.get_ty(nodes),
        }
    }

    /// Returns if the operand is a function argument
    pub fn is_arg(&self) -> (r: bool)
        ensures
            r == self is Arg,
    {
        matches!(self, IrOperand::Arg { .. })
    }

    /// Returns if the operand is a last use
    pub fn is_drop(&self) -> (r: bool)
        ensures
            r == self is Drop,
    {
        matches!(self, IrOperand::Drop(_))
    }

    /// Returns if the operand is the output of a node
    pub fn is_out(&self) -> (r: bool)
        ensures
            r == self is Out,
    {
        matches!(self, IrOperand::Out(_))
    }

    /// Returns the index of the node whose output this operand reads.
    pub fn force_node(&self) -> (r: usize)
        requires
            self is Out,
        ensures
            *self == IrOperand::Out(r),
    {
        match self {
            IrOperand::Out(n) => *n,
            _ => 0,
        }
    }

    /// Returns the operand wrapped by a last use.
    pub fn force_op(&self) -> (r: &IrOperand)
        requires
            self is Drop,
        ensures
            *self == IrOperand::Drop(Box::new(*r)),
    {
        match self {
            IrOperand::Drop(inner) => &**inner,
            _ => self,
        }
    }

    /// Returns the number and the type of an argument operand.
    pub fn force_arg(&self) -> (r: (usize, TypeMetadata))
        requires
            self is Arg,
        ensures
            *self == (IrOperand::Arg { num: r.0, ty: r.1 }),
    {
        match self {
            IrOperand::Arg { num, ty } => (*num, *ty),
            _ => (0, TypeMetadata::Int64),
        }
    }
}

/// One operation of a function body.
#[derive(Debug, PartialEq, Eq)]
pub struct IrNode {
    /// What the node does
    pub opcode: IrOpcode,
    /// What it reads, in order
    pub ops: Vec<IrOperand>,
    /// Whether it produces a value that later nodes may read
    pub has_out: bool,
    /// The type of the produced value
    pub ty: Option<TypeMetadata>,
}

impl Clone for IrOperand {
    fn clone(&self) -> (r: Self)
        ensures
            r == *self,
        decreases self,
    {
        match self {
            IrOperand::Arg { num, ty } => IrOperand::Arg { num: *num, ty: *ty },
            IrOperand::ConstNum { num, ty } => IrOperand::ConstNum { num: *num, ty: *ty },
            IrOperand::Out(n) => IrOperand::Out(*n),
            IrOperand::Drop(inner) => IrOperand::Drop(Box::new((**inner).clone())),
        }
    }
}

/// Copies a list of operands one by one.
pub fn clone_operands(ops: &Vec<IrOperand>) -> (r: Vec<IrOperand>)
    ensures
        r@ == ops@,
{
    let mut r: Vec<IrOperand> = Vec::new();
    let mut i: usize = 0;
    while i < ops.len()
        invariant
            i <= ops@.len(),
            r@ == ops@.take(i as int),
        decreases ops@.len() - i,
    {
        r.push(ops[i].clone());
        i = i + 1;
        assert(r@ =~= ops@.take(i as int));
    }
    assert(ops@.take(ops@.len() as int) =~= ops@);
    r
}

impl Clone for IrNode {
    fn clone(&self) -> (r: Self)
        ensures
            r.same_as(*self),
    {
        let ops = clone_operands(&self.ops);
        IrNode { opcode: self.opcode, ops, has_out: self.has_out, ty: self.ty }
    }
}

impl IrNode {
    /// Whether two nodes agree in every field's contents.
    pub open spec fn same_as(&self, other: IrNode) -> bool {
        &&& self.opcode == other.opcode
        &&& self.ops@ == other.ops@
        &&& self.has_out == other.has_out
        &&& self.ty == other.ty
    }

    /// Whether some operand of this node reads the value of node `id`.
    pub open spec fn uses(&self, id: usize) -> bool {
        exists|i: int| 0 <= i < self.ops@.len() && (#[trigger] self.ops@[i]).refers_to(id)
    }

    /// Whether the node must stay even when nothing reads it.
    pub open spec fn spec_crucial(&self) -> bool {
        self.opcode is Ret
    }

    /// Builds the node that reads the stack pointer.
    pub fn get_stack_ptr() -> (r: IrNode)
        ensures
            r.opcode == IrOpcode::InstrincCall(InstrincSettings { instrinc: InstrincType::GetStackPointer }),
            r.ops@.len() == 0,
            r.has_out,
            r.ty == Some(TypeMetadata::Int64),
    {
        IrNode {
            opcode: IrOpcode::InstrincCall(InstrincSettings::get_stack_ptr()),
            ops: Vec::new(),
            has_out: true,
            ty: Some(TypeMetadata::Int64),
        }
    }

    /// Returns the type of the node's value
    pub fn get_ty(&self) -> (r: Option<TypeMetadata>)
        ensures
            r == self.ty,
    {
        self.ty
    }

    /// Returns if the node adds
    pub fn is_add(&self) -> (r: bool)
        ensures
            r == self.opcode is Add,
    {
        matches!(self.opcode, IrOpcode::Add)
    }

    /// Returns if the node subtracts
    pub fn is_sub(&self) -> (r: bool)
        ensures
            r == self.opcode is Sub,
    {
        matches!(self.opcode, IrOpcode::Sub)
    }

    /// Returns if the node returns
    pub fn is_ret(&self) -> (r: bool)
        ensures
            r == self.opcode is Ret,
    {
        matches!(self.opcode, IrOpcode::Ret)
    }

    /// Returns if the node copies
    pub fn is_copy(&self) -> (r: bool)
        ensures
            r == self.opcode is Copy,
    {
        matches!(self.opcode, IrOpcode::Copy)
    }

    /// Returns if the node calls an intrinsic
    pub fn is_instrinc(&self) -> (r: bool)
        ensures
            r == self.opcode is InstrincCall,
    {
        matches!(self.opcode, IrOpcode::InstrincCall(_))
    }

    /// Whether the node must be kept although nothing reads it
    pub fn crucial(&self) -> (r: bool)
        ensures
            r == self.spec_crucial(),
    {
        self.is_ret()
    }

    /// Returns the first operand
    pub fn get_lhs(&self) -> (r: &IrOperand)
        requires
            self.ops@.len() >= 1,
        ensures
            *r == self.ops@[0],
    {
        &self.ops[0]
    }

    /// Returns the second operand
    pub fn get_rhs(&self) -> (r: &IrOperand)
        requires
            self.ops@.len() >= 2,
        ensures
            *r == self.ops@[1],
    {
        &self.ops[1]
    }

    /// Returns if the node has two operands
    pub fn is_2ops(&self) -> (r: bool)
        ensures
            r == (self.ops@.len() == 2),
    {
        self.ops.len() == 2
    }

    /// Returns if the node has one operand
    pub fn is_1op(&self) -> (r: bool)
        ensures
            r == (self.ops@.len() == 1),
    {
        self.ops.len() == 1
    }
}

/// A function: its signature, an arena of IR nodes and its body, the list of arena
/// indices in execution order.
#[derive(Debug, Clone, PartialEq, Eq)]
pub struct Function {
    /// The symbol name
    pub name: String,
    /// The return type, if the function returns a value
    pub ret: Option<TypeMetadata>,
    /// The parameter types, by position
    pub args: Vec<TypeMetadata>,
    /// Every node ever built for this function
    pub nodes: Vec<IrNode>,
    /// The body: arena indices in execution order
    pub ir: Vec<usize>,
    /// Who may call the function
    pub visibility: Visibilty,
}

/// A body is well formed when it lists existing nodes in strictly increasing arena order,
/// so that each node occurs once and after every node it was built from.
pub open spec fn body_wf(nodes: Seq<IrNode>, ir: Seq<usize>) -> bool {
    &&& forall|k: int| 0 <= k < ir.len() ==> #[trigger] ir[k] < nodes.len()
    &&& forall|j: int, k: int| 0 <= j < k < ir.len() ==> ir[j] < ir[k]
}

impl Function {
    /// Whether the body is well formed.
    pub open spec fn wf(&self) -> bool {
        body_wf(self.nodes@, self.ir@)
    }

    /// The node at position `k` of the body.
    pub open spec fn node_at(&self, k: int) -> IrNode {
        self.nodes@[self.ir@[k] as int]
    }

    /// The nodes of the body in execution order.
    pub open spec fn body(&self) -> Seq<IrNode> {
        self.ir@.map_values(|id: usize| self.nodes@[id as int])
    }

    /// The opcodes of the body in execution order.
    pub open spec fn opcodes(&self) -> Seq<IrOpcode> {
        self.ir@.map_values(|id: usize| self.nodes@[id as int].opcode)
    }

    /// Creates an empty public function without parameters or return type.
    pub fn new(name: &str) -> (r: Self)
        ensures
            r.name@ == name@,
            r.ret is None,
            r.args@.len() == 0,
            r.nodes@.len() == 0,
            r.ir@.len() == 0,
            r.visibility == Visibilty::Public,
            r.wf(),
    {
        Function {
            name: name.to_string(),
            ret: None,
            args: Vec::new(),
            nodes: Vec::new(),
            ir: Vec::new(),
            visibility: Visibilty::Public,
        }
    }

    /// Makes the function visible only inside its module
    pub fn internal(&mut self)
        ensures
            *final(self) == (Function { visibility: Visibilty::Internal, ..*old(self) }),
    {
        self.visibility = Visibilty::Internal;
    }

    /// Makes the function visible to other modules
    pub fn public(&mut self)
        ensures
            *final(self) == (Function { visibility: Visibilty::Public, ..*old(self) }),
    {
        self.visibility = Visibilty::Public;
    }

    /// Sets the return type
    pub fn set_ret(&mut self, new: TypeMetadata)
        ensures
            *final(self) == (Function { ret: Some(new), ..*old(self) }),
    {
        self.ret = Some(new);
    }

    /// Appends a parameter and returns the operand that reads it.
    pub fn add_arg(&mut self, ty: TypeMetadata) -> (r: IrOperand)
        requires
            old(self).args@.len() < usize::MAX,
        ensures
            final(self).args@ == old(self).args@.push(ty),
            final(self).nodes == old(self).nodes,
            final(self).ir == old(self).ir,
            final(self).name == old(self).name,
            final(self).ret == old(self).ret,
            final(self).visibility == old(self).visibility,
            r == (IrOperand::Arg { num: old(self).args@.len() as usize, ty }),
    {
        self.args.push(ty);
        IrOperand::Arg { num: self.args.len() - 1, ty }
    }

    /// Appends `node` to the arena and to the end of the body.
    fn push_node(&mut self, node: IrNode) -> (r: IrOperand)
        requires
            old(self).wf(),
            old(self).nodes@.len() < usize::MAX,
        ensures
            final(self).wf(),
            final(self).nodes@ == old(self).nodes@.push(node),
            final(self).ir@ == old(self).ir@.push(old(self).nodes@.len() as usize),
            final(self).args == old(self).args,
            final(self).name == old(self).name,
            final(self).ret == old(self).ret,
            final(self).visibility == old(self).visibility,
            r == IrOperand::Out(old(self).nodes@.len() as usize),
    {
        let id = self.nodes.len();
        self.nodes.push(node);
        self.ir.push(id);
        IrOperand::Out(id)
    }

    /// Appends a binary node of the given opcode; its type is that of `lhs`.
    fn binary(&mut self, opcode: IrOpcode, lhs: &IrOperand, rhs: &IrOperand) -> (r: IrOperand)
        requires
            old(self).wf(),
            old(self).nodes@.len() < usize::MAX,
        ensures
            final(self).wf(),
            final(self).nodes@ == old(self).nodes@.push(
                IrNode {
                    opcode,
                    ops: final(self).nodes@.last().ops,
                    has_out: true,
                    ty: lhs.spec_ty(old(self).nodes@),
                },
            ),
            final(self).nodes@.last().ops@ == seq![*lhs, *rhs],
            final(self).ir@ == old(self).ir@.push(old(self).nodes@.len() as usize),
            final(self).args == old(self).args,
            final(self).name == old(self).name,
            final(self).ret == old(self).ret,
            final(self).visibility == old(self).visibility,
            r == IrOperand::Out(old(self).nodes@.len() as usize),
    {
        let ty = lhs.get_ty(&self.nodes);
        let node = IrNode { opcode, ops: vec![lhs.clone(), rhs.clone()], has_out: true, ty };
        self.push_node(node)
    }

    /// Appends a one-operand node.
    fn unary(&mut self, opcode: IrOpcode, op: &IrOperand, has_out: bool) -> (r: IrOperand)
        requires
            old(self).wf(),
            old(self).nodes@.len() < usize::MAX,
        ensures
            final(self).wf(),
            final(self).nodes@ == old(self).nodes@.push(
                IrNode {
                    opcode,
                    ops: final(self).nodes@.last().ops,
                    has_out,
                    ty: op.spec_ty(old(self).nodes@),
                },
            ),
            final(self).nodes@.last().ops@ == seq![*op],
            final(self).ir@ == old(self).ir@.push(old(self).nodes@.len() as usize),
            final(self).args == old(self).args,
            final(self).name == old(self).name,
            final(self).ret == old(self).ret,
            final(self).visibility == old(self).visibility,
            r == IrOperand::Out(old(self).nodes@.len() as usize),
    {
        let ty = op.get_ty(&self.nodes);
        let node = IrNode { opcode, ops: vec![op.clone()], has_out, ty };
        self.push_node(node)
    }

    /// Appends `lhs + rhs` to the body and returns its value. Both operands must have the
    /// same type.
    pub fn add(&mut self, lhs: &IrOperand, rhs: &IrOperand) -> (r: IrOperand)
        requires
            old(self).wf(),
            old(self).nodes@.len() < usize::MAX,
            lhs.spec_ty(old(self).nodes@) == rhs.spec_ty(old(self).nodes@),
        ensures
            final(self).wf(),
            final(self).nodes@.len() == old(self).nodes@.len() + 1,
            final(self).nodes@.drop_last() == old(self).nodes@,
            final(self).nodes@.last().opcode == IrOpcode::Add,
            final(self).nodes@.last().ops@ == seq![*lhs, *rhs],
            final(self).nodes@.last().has_out,
            final(self).nodes@.last().ty == lhs.spec_ty(old(self).nodes@),
            final(self).ir@ == old(self).ir@.push(old(self).nodes@.len() as usize),
            final(self).args == old(self).args,
            final(self).name == old(self).name,
            final(self).ret == old(self).ret,
            final(self).visibility == old(self).visibility,
            r == IrOperand::Out(old(self).nodes@.len() as usize),
    {
        let r = self.binary(IrOpcode::Add, lhs, rhs);
        assert(self.nodes@.drop_last() =~= old(self).nodes@);
        r
    }

    /// Appends `lhs - rhs` to the body and returns its value. Both operands must have the
    /// same type.
    pub fn sub(&mut self, lhs: &IrOperand, rhs: &IrOperand) -> (r: IrOperand)
        requires
            old(self).wf(),
            old(self).nodes@.len() < usize::MAX,
            lhs.spec_ty(old(self).nodes@) == rhs.spec_ty(old(self).nodes@),
        ensures
            final(self).wf(),
            final(self).nodes@.len() == old(self).nodes@.len() + 1,
            final(self).nodes@.drop_last() == old(self).nodes@,
            final(self).nodes@.last().opcode == IrOpcode::Sub,
            final(self).nodes@.last().ops@ == seq![*lhs, *rhs],
            final(self).nodes@.last().has_out,
            final(self).nodes@.last().ty == lhs.spec_ty(old(self).nodes@),
            final(self).ir@ == old(self).ir@.push(old(self).nodes@.len() as usize),
            final(self).args == old(self).args,
            final(self).name == old(self).name,
            final(self).ret == old(self).ret,
            final(self).visibility == old(self).visibility,
            r == IrOperand::Out(old(self).nodes@.len() as usize),
    {
        let r = self.binary(IrOpcode::Sub, lhs, rhs);
        assert(self.nodes@.drop_last() =~= old(self).nodes@);
        r
    }

    /// Appends a return of `op` to the body.
    pub fn ret(&mut self, op: &IrOperand)
        requires
            old(self).wf(),
            old(self).nodes@.len() < usize::MAX,
        ensures
            final(self).wf(),
            final(self).nodes@.len() == old(self).nodes@.len() + 1,
            final(self).nodes@.drop_last() == old(self).nodes@,
            final(self).nodes@.last().opcode == IrOpcode::Ret,
            final(self).nodes@.last().ops@ == seq![*op],
            !final(self).nodes@.last().has_out,
            final(self).nodes@.last().ty == op.spec_ty(old(self).nodes@),
            final(self).ir@ == old(self).ir@.push(old(self).nodes@.len() as usize),
            final(self).args == old(self).args,
            final(self).name == old(self).name,
            final(self).ret == old(self).ret,
            final(self).visibility == old(self).visibility,
    {
        let _ = self.unary(IrOpcode::Ret, op, false);
        assert(self.nodes@.drop_last() =~= old(self).nodes@);
    }

    /// Appends a copy of `op` to the body and returns the copy.
    pub fn copy(&mut self, op: &IrOperand) -> (r: IrOperand)
        requires
            old(self).wf(),
            old(self).nodes@.len() < usize::MAX,
        ensures
            final(self).wf(),
            final(self).nodes@.len() == old(self).nodes@.len() + 1,
            final(self).nodes@.drop_last() == old(self).nodes@,
            final(self).nodes@.last().opcode == IrOpcode::Copy,
            final(self).nodes@.last().ops@ == seq![*op],
            final(self).nodes@.last().has_out,
            final(self).nodes@.last().ty == op.spec_ty(old(self).nodes@),
            final(self).ir@ == old(self).ir@.push(old(self).nodes@.len() as usize),
            final(self).args == old(self).args,
            final(self).name == old(self).name,
            final(self).ret == old(self).ret,
            final(self).visibility == old(self).visibility,
            r == IrOperand::Out(old(self).nodes@.len() as usize),
    {
        let r = self.unary(IrOpcode::Copy, op, true);
        assert(self.nodes@.drop_last() =~= old(self).nodes@);
        r
    }

    /// Appends a read of the stack pointer to the body and returns its value.
    pub fn get_sp(&mut self) -> (r: IrOperand)
        requires
            old(self).wf(),
            old(self).nodes@.len() < usize::MAX,
        ensures
            final(self).wf(),
            final(self).nodes@.len() == old(self).nodes@.len() + 1,
            final(self).nodes@.drop_last() == old(self).nodes@,
            final(self).nodes@.last().opcode == IrOpcode::InstrincCall(
                InstrincSettings { instrinc: InstrincType::GetStackPointer },
            ),
            final(self).nodes@.last().ops@.len() == 0,
            final(self).nodes@.last().has_out,
            final(self).nodes@.last().ty == Some(TypeMetadata::Int64),
            final(self).ir@ == old(self).ir@.push(old(self).nodes@.len() as usize),
            final(self).args == old(self).args,
            final(self).name == old(self).name,
            final(self).ret == old(self).ret,
            final(self).visibility == old(self).visibility,
            r == IrOperand::Out(old(self).nodes@.len() as usize),
    {
        let node = IrNode::get_stack_ptr();
        let r = self.push_node(node);
        assert(self.nodes@.drop_last() =~= old(self).nodes@);
        r
    }
}

} // verus!
