use vstd::prelude::*;
use crate::ir::{InstrincSettings, InstrincType, IrOpcode};
use crate::pattern::{template, Cond, OpExpr, Pattern, PatternView, Pos, TemplateView};
use crate::regalloc::Allocation;
use crate::target::{spec_caller_saved, spec_gprs, x86_reg_name, TargetArch};
use crate::ty::TypeMetadata;
use vstd::string::StringExecFns;

verus! {

/// The rax register
pub const RAX: usize = 0;
/// The rcx register
pub const RCX: usize = 1;
/// The rdx register
pub const RDX: usize = 2;
/// The rbx register
pub const RBX: usize = 3;
/// The rsp register
pub const RSP: usize = 4;
/// The rbp register
pub const RBP: usize = 5;
/// The rsi register
pub const RSI: usize = 6;
/// The rdi register
pub const RDI: usize = 7;
/// The r8 register
pub const R8: usize = 8;
/// The r9 register
pub const R9: usize = 9;
/// The r10 register
pub const R10: usize = 10;
/// The r11 register
pub const R11: usize = 11;
/// The r12 register
pub const R12: usize = 12;
/// The r13 register
pub const R13: usize = 13;
/// The r14 register
pub const R14: usize = 14;
/// The r15 register
pub const R15: usize = 15;

/// A register of the x86-64 register file, by its hardware number.
#[derive(Debug, Clone, Copy, PartialEq, Eq, Structural)]
pub struct X86Reg {
    /// The register number
    pub id: usize,
}

impl X86Reg {
    /// Returns the register number
    pub fn id(&self) -> (r: usize)
        ensures
            r == self.id,
    {
        self.id
    }

    /// Returns the type of value the register holds
    pub fn ty(&self) -> (r: TypeMetadata)
        ensures
            r == TypeMetadata::Int64,
    {
        TypeMetadata::Int64
    }

    /// Returns the name of the register
    pub fn name(&self) -> (r: String)
        ensures
            r@ == x86_reg_name(self.id),
    {
        x86_name(self.id)
    }

    /// Returns if the allocator may hand the register out
    pub fn is_gpr(&self) -> (r: bool)
        ensures
            r == spec_gprs(TargetArch::X86).contains(self.id),
    {
        let r = self.id < 16 && self.id != RSP && self.id != RBP;
        proof {
            let g = spec_gprs(TargetArch::X86);
            if r {
                let id = self.id;
                if id == 0 { assert(g[0] == id); }
                else if id == 1 { assert(g[1] == id); }
                else if id == 2 { assert(g[2] == id); }
                else if id == 3 { assert(g[9] == id); }
                else if id == 6 { assert(g[3] == id); }
                else if id == 7 { assert(g[4] == id); }
                else if id == 8 { assert(g[5] == id); }
                else if id == 9 { assert(g[6] == id); }
                else if id == 10 { assert(g[7] == id); }
                else if id == 11 { assert(g[8] == id); }
                else if id == 12 { assert(g[10] == id); }
                else if id == 13 { assert(g[11] == id); }
                else if id == 14 { assert(g[12] == id); }
                else { assert(g[13] == id); }
            } else {
                assert forall|i: int| 0 <= i < g.len() implies g[i] != self.id by {}
            }
        }
        r
    }

    /// Returns if a caller must save the register
    pub fn caller_saved(&self) -> (r: bool)
        ensures
            r == spec_caller_saved(TargetArch::X86).contains(self.id),
    {
        let id = self.id;
        let r = id == RAX || id == RCX || id == RDX || id == RSI || id == RDI || id == R8 || id == R9
            || id == R10 || id == R11;
        proof {
            let c = spec_caller_saved(TargetArch::X86);
            if r {
                if id == 0 { assert(c[0] == id); }
                else if id == 1 { assert(c[1] == id); }
                else if id == 2 { assert(c[2] == id); }
                else if id == 6 { assert(c[3] == id); }
                else if id == 7 { assert(c[4] == id); }
                else if id == 8 { assert(c[5] == id); }
                else if id == 9 { assert(c[6] == id); }
                else if id == 10 { assert(c[7] == id); }
                else { assert(c[8] == id); }
            } else {
                assert forall|i: int| 0 <= i < c.len() implies c[i] != id by {}
            }
        }
        r
    }

    /// Returns the register as an allocation
    pub fn to_allocation(&self) -> (r: Allocation)
        ensures
            r == (Allocation::Register { id: self.id, ty: TypeMetadata::Int64 }),
    {
        Allocation::Register { id: self.id, ty: TypeMetadata::Int64 }
    }
}

/// Returns the name of x86 register `id`.
pub fn x86_name(id: usize) -> (r: String)
    ensures
        r@ == x86_reg_name(id),
{
    let s = if id == 0 { "rax" }
    else if id == 1 { "rcx" }
    else if id == 2 { "rdx" }
    else if id == 3 { "rbx" }
    else if id == 4 { "rsp" }
    else if id == 5 { "rbp" }
    else if id == 6 { "rsi" }
    else if id == 7 { "rdi" }
    else if id == 8 { "r8" }
    else if id == 9 { "r9" }
    else if id == 10 { "r10" }
    else if id == 11 { "r11" }
    else if id == 12 { "r12" }
    else if id == 13 { "r13" }
    else if id == 14 { "r14" }
    else if id == 15 { "r15" }
    else { "?" };
    String::from_str(s)
}

/// The 64-bit register `id` as an allocation.
pub open spec fn reg(id: usize) -> Allocation {
    Allocation::Register { id, ty: TypeMetadata::Int64 }
}

/// The x86 lowering table, in the order patterns are tried.
pub open spec fn x86_table() -> Seq<PatternView> {
    seq![
        PatternView {
            opcode: IrOpcode::Add,
            ins: seq![Pos::Gr, Pos::Gr],
            out: Some(Pos::Gr),
            conds: seq![Cond::Eq(OpExpr::In(0), OpExpr::Out)],
            templates: seq![TemplateView { mnemonic: "add"@, ops: seq![OpExpr::In(0), OpExpr::In(1)] }],
        },
        PatternView {
            opcode: IrOpcode::Add,
            ins: seq![Pos::Gr, Pos::Gr],
            out: Some(Pos::Gr),
            conds: seq![Cond::Eq(OpExpr::In(1), OpExpr::Out)],
            templates: seq![TemplateView { mnemonic: "add"@, ops: seq![OpExpr::In(1), OpExpr::In(0)] }],
        },
        PatternView {
            opcode: IrOpcode::Add,
            ins: seq![Pos::Gr, Pos::Gr],
            out: Some(Pos::Gr),
            conds: seq![Cond::Ne(OpExpr::In(0), OpExpr::Out), Cond::Ne(OpExpr::In(1), OpExpr::Out)],
            templates: seq![TemplateView { mnemonic: "lea"@, ops: seq![OpExpr::Out, OpExpr::In(0), OpExpr::In(1)] }],
        },
        PatternView {
            opcode: IrOpcode::Sub,
            ins: seq![Pos::Gr, Pos::Gr],
            out: Some(Pos::Gr),
            conds: seq![Cond::Eq(OpExpr::In(0), OpExpr::Out)],
            templates: seq![TemplateView { mnemonic: "sub"@, ops: seq![OpExpr::In(0), OpExpr::In(1)] }],
        },
        PatternView {
            opcode: IrOpcode::Ret,
            ins: seq![Pos::Gr],
            out: None,
            conds: seq![Cond::Eq(OpExpr::In(0), OpExpr::Fixed(reg(0)))],
            templates: seq![TemplateView { mnemonic: "ret"@, ops: seq![] }],
        },
        PatternView {
            opcode: IrOpcode::Ret,
            ins: seq![Pos::Any],
            out: None,
            conds: seq![Cond::Ne(OpExpr::In(0), OpExpr::Fixed(reg(0)))],
            templates: seq![
                TemplateView { mnemonic: "mov"@, ops: seq![OpExpr::Fixed(reg(0)), OpExpr::In(0)] },
                TemplateView { mnemonic: "ret"@, ops: seq![] },
            ],
        },
        PatternView {
            opcode: IrOpcode::Copy,
            ins: seq![Pos::Gr],
            out: Some(Pos::Gr),
            conds: seq![],
            templates: seq![TemplateView { mnemonic: "mov"@, ops: seq![OpExpr::Out, OpExpr::In(0)] }],
        },
        PatternView {
            opcode: IrOpcode::InstrincCall(InstrincSettings { instrinc: InstrincType::GetStackPointer }),
            ins: seq![],
            out: Some(Pos::Gr),
            conds: seq![],
            templates: seq![TemplateView { mnemonic: "mov"@, ops: seq![OpExpr::Out, OpExpr::Fixed(reg(4))] }],
        },
    ]
}

/// Builds the x86 lowering table.
pub fn x86_patterns() -> (r: Vec<Pattern>)
    ensures
        crate::pattern::table_view(r@) == x86_table(),
{
    let rax = Allocation::Register { id: RAX, ty: TypeMetadata::Int64 };
    let rsp = Allocation::Register { id: RSP, ty: TypeMetadata::Int64 };
    let mut r: Vec<Pattern> = Vec::new();
    r.push(Pattern {
        opcode: IrOpcode::Add,
        ins: vec![Pos::Gr, Pos::Gr],
        out: Some(Pos::Gr),
        conds: vec![Cond::Eq(OpExpr::In(0), OpExpr::Out)],
        templates: vec![template("add", vec![OpExpr::In(0), OpExpr::In(1)])],
    });
    r.push(Pattern {
        opcode: IrOpcode::Add,
        ins: vec![Pos::Gr, Pos::Gr],
        out: Some(Pos::Gr),
        conds: vec![Cond::Eq(OpExpr::In(1), OpExpr::Out)],
        templates: vec![template("add", vec![OpExpr::In(1), OpExpr::In(0)])],
    });
    r.push(Pattern {
        opcode: IrOpcode::Add,
        ins: vec![Pos::Gr, Pos::Gr],
        out: Some(Pos::Gr),
        conds: vec![Cond::Ne(OpExpr::In(0), OpExpr::Out), Cond::Ne(OpExpr::In(1), OpExpr::Out)],
        templates: vec![template("lea", vec![OpExpr::Out, OpExpr::In(0), OpExpr::In(1)])],
    });
    r.push(Pattern {
        opcode: IrOpcode::Sub,
        ins: vec![Pos::Gr, Pos::Gr],
        out: Some(Pos::Gr),
        conds: vec![Cond::Eq(OpExpr::In(0), OpExpr::Out)],
        templates: vec![template("sub", vec![OpExpr::In(0), OpExpr::In(1)])],
    });
    r.push(Pattern {
        opcode: IrOpcode::Ret,
        ins: vec![Pos::Gr],
        out: None,
        conds: vec![Cond::Eq(OpExpr::In(0), OpExpr::Fixed(rax))],
        templates: vec![template("ret", vec![])],
    });
    r.push(Pattern {
        opcode: IrOpcode::Ret,
        ins: vec![Pos::Any],
        out: None,
        conds: vec![Cond::Ne(OpExpr::In(0), OpExpr::Fixed(rax))],
        templates: vec![template("mov", vec![OpExpr::Fixed(rax), OpExpr::In(0)]), template("ret", vec![])],
    });
    r.push(Pattern {
        opcode: IrOpcode::Copy,
        ins: vec![Pos::Gr],
        out: Some(Pos::Gr),
        conds: vec![],
        templates: vec![template("mov", vec![OpExpr::Out, OpExpr::In(0)])],
    });
    r.push(Pattern {
        opcode: IrOpcode::InstrincCall(InstrincSettings::get_stack_ptr()),
        ins: vec![],
        out: Some(Pos::Gr),
        conds: vec![],
        templates: vec![template("mov", vec![OpExpr::Out, OpExpr::Fixed(rsp)])],
    });
    proof {
        let t = x86_table();
        let v = crate::pattern::table_view(r@);
        assert forall|i: int| 0 <= i < 8 implies #[trigger] v[i] == t[i] by {
            assert(v[i].ins =~= t[i].ins);
            assert(v[i].conds =~= t[i].conds);
            assert(v[i].templates.len() == t[i].templates.len());
            assert forall|j: int| 0 <= j < v[i].templates.len() implies #[trigger] v[i].templates[j] == t[i].templates[j] by {
                assert(v[i].templates[j].ops =~= t[i].templates[j].ops);
            }
            assert(v[i].templates =~= t[i].templates);
        }
        assert(v =~= t);
    }
    r
}

} // verus!
