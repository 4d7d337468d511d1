use vstd::prelude::*;
use crate::aarch64::aarch64_name;
use crate::assembly::{insts_view, AsmView, AssemblyInst, Compilation, Constant, FuncAsm};
use crate::ir::Visibilty;
use crate::regalloc::Allocation;
use crate::riscv64::riscv64_name;
use crate::target::{spec_reg_name, ArchBackend, TargetArch};
use crate::text::{decimal, hex, push_decimal, push_hex};
use crate::x86::x86_name;
use vstd::string::StringExecFns;

verus! {

/// How an operand is written.
pub open spec fn op_text(arch: TargetArch, a: Allocation) -> Seq<char> {
    match a {
        Allocation::Register { id, .. } => spec_reg_name(arch, id),
        Allocation::Stack { slot, .. } => match arch {
            TargetArch::X86 => "[rsp + "@ + decimal(slot as nat * 16) + "]"@,
            _ => "[sp, #-"@ + decimal(slot as nat * 16) + "]!"@,
        },
        Allocation::Imm { num, .. } => match arch {
            TargetArch::X86 => "0x"@ + hex(num as nat),
            _ => "#0x"@ + hex(num as nat),
        },
        Allocation::ConstUse { id } => "[c"@ + decimal(id as nat) + "]"@,
    }
}

/// Operands separated by commas.
pub open spec fn ops_text(arch: TargetArch, ops: Seq<Allocation>) -> Seq<char>
    decreases ops.len(),
{
    if ops.len() == 0 {
        Seq::empty()
    } else if ops.len() == 1 {
        op_text(arch, ops[0])
    } else {
        ops_text(arch, ops.drop_last()) + ", "@ + op_text(arch, ops.last())
    }
}

/// One instruction line. On x86 `lea` takes its two sources as an address.
pub open spec fn inst_text(arch: TargetArch, i: AsmView) -> Seq<char> {
    if arch == TargetArch::X86 && i.opcode == "lea"@ && i.ops.len() == 3 {
        "\tlea "@ + op_text(arch, i.ops[0]) + ", ["@ + op_text(arch, i.ops[1]) + " + "@ + op_text(arch, i.ops[2])
            + "]\n"@
    } else if i.ops.len() == 0 {
        "\t"@ + i.opcode + "\n"@
    } else {
        "\t"@ + i.opcode + " "@ + ops_text(arch, i.ops) + "\n"@
    }
}

/// Instruction lines in order.
pub open spec fn insts_text(arch: TargetArch, insts: Seq<AsmView>) -> Seq<char>
    decreases insts.len(),
{
    if insts.len() == 0 {
        Seq::empty()
    } else {
        insts_text(arch, insts.drop_last()) + inst_text(arch, insts.last())
    }
}

/// The bytes of a constant, in decimal, separated by commas.
pub open spec fn bytes_text(b: Seq<u8>) -> Seq<char>
    decreases b.len(),
{
    if b.len() == 0 {
        Seq::empty()
    } else if b.len() == 1 {
        decimal(b[0] as nat)
    } else {
        bytes_text(b.drop_last()) + ", "@ + decimal(b.last() as nat)
    }
}

/// The data lines of a function's constants.
pub open spec fn consts_text(c: Seq<Constant>) -> Seq<char>
    decreases c.len(),
{
    if c.len() == 0 {
        Seq::empty()
    } else {
        consts_text(c.drop_last()) + "c"@ + decimal(c.last().id as nat) + ": .byte "@ + bytes_text(c.last().bytes@)
            + "\n"@
    }
}

/// The code-section header.
pub open spec fn section_text(arch: TargetArch) -> Seq<char> {
    match arch {
        TargetArch::X86 => "section .text\n"@,
        _ => ".text\n"@,
    }
}

/// The directive that makes a symbol global.
pub open spec fn global_text(arch: TargetArch, name: Seq<char>) -> Seq<char> {
    match arch {
        TargetArch::X86 => "global "@ + name + "\n"@,
        TargetArch::Aarch64 => ".global "@ + name + "\n"@,
        TargetArch::Riscv64 => ".globl "@ + name + "\n"@,
    }
}

/// A function: its global directive when public, its label, its instructions, its constants.
pub open spec fn func_text(arch: TargetArch, f: FuncAsm) -> Seq<char> {
    (if f.scope == Visibilty::Public {
        global_text(arch, f.name@)
    } else {
        Seq::empty()
    }) + f.name@ + ":\n"@ + insts_text(arch, insts_view(f.insts@)) + consts_text(f.consts@)
}

/// The text of functions, one after the other.
pub open spec fn funcs_text(arch: TargetArch, fs: Seq<FuncAsm>) -> Seq<char>
    decreases fs.len(),
{
    if fs.len() == 0 {
        Seq::empty()
    } else {
        funcs_text(arch, fs.drop_last()) + func_text(arch, fs.last())
    }
}

/// The text of a whole compilation.
pub open spec fn compilation_text(arch: TargetArch, fs: Seq<FuncAsm>) -> Seq<char> {
    section_text(arch) + funcs_text(arch, fs)
}

impl ArchBackend {
    /// Returns the name of register `num`
    pub fn print_reg(&self, num: usize) -> (r: String)
        ensures
            r@ == spec_reg_name(self.arch, num),
    {
        match self.arch {
            TargetArch::X86 => x86_name(num),
            TargetArch::Aarch64 => aarch64_name(num),
            TargetArch::Riscv64 => riscv64_name(num),
        }
    }

    /// Appends how `op` is written
    pub fn print_op_into(&self, out: &mut String, op: &Allocation)
        ensures
            final(out)@ == old(out)@ + op_text(self.arch, *op),
    {
        let ghost start = out@;
        match op {
            Allocation::Register { id, .. } => {
                let name = self.print_reg(*id);
                out.append(name.as_str());
            },
            Allocation::Stack { slot, .. } => {
                let offset = (*slot as u128) * 16;
                match self.arch {
                    TargetArch::X86 => {
                        out.append("[rsp + ");
                        push_decimal(out, offset);
                        out.append("]");
                    },
                    _ => {
                        out.append("[sp, #-");
                        push_decimal(out, offset);
                        out.append("]!");
                    },
                }
            },
            Allocation::Imm { num, .. } => {
                match self.arch {
                    TargetArch::X86 => out.append("0x"),
                    _ => out.append("#0x"),
                }
                push_hex(out, *num as u128);
            },
            Allocation::ConstUse { id } => {
                out.append("[c");
                push_decimal(out, *id as u128);
                out.append("]");
            },
        }
        assert(out@ =~= start + op_text(self.arch, *op));
    }

    /// Returns how `op` is written
    pub fn print_op(&self, op: &Allocation) -> (r: String)
        ensures
            r@ == op_text(self.arch, *op),
    {
        let mut s = String::new();
        self.print_op_into(&mut s, op);
        s
    }

    fn print_ops_into(&self, out: &mut String, ops: &Vec<Allocation>)
        ensures
            final(out)@ == old(out)@ + ops_text(self.arch, ops@),
    {
        let ghost start = out@;
        let mut i: usize = 0;
        while i < ops.len()
            invariant
                i <= ops@.len(),
                out@ == start + ops_text(self.arch, ops@.take(i as int)),
            decreases ops@.len() - i,
        {
            if i > 0 {
                out.append(", ");
            }
            self.print_op_into(out, &ops[i]);
            i = i + 1;
            proof {
                let t = ops@.take(i as int);
                assert(t.drop_last() =~= ops@.take(i - 1));
                assert(t.last() == ops@[i - 1]);
                assert(out@ =~= start + ops_text(self.arch, t));
            }
        }
        assert(ops@.take(ops@.len() as int) =~= ops@);
    }

    /// Returns the line of one instruction
    pub fn print_inst(&self, inst: &AssemblyInst) -> (r: String)
        ensures
            r@ == inst_text(self.arch, inst@),
    {
        let lea = String::from_str("lea");
        let mut s = String::new();
        if self.arch == TargetArch::X86 && inst.opcode == lea && inst.ops.len() == 3 {
            s.append("\tlea ");
            self.print_op_into(&mut s, &inst.ops[0]);
            s.append(", [");
            self.print_op_into(&mut s, &inst.ops[1]);
            s.append(" + ");
            self.print_op_into(&mut s, &inst.ops[2]);
            s.append("]\n");
            assert(s@ =~= inst_text(self.arch, inst@));
        } else if inst.ops.len() == 0 {
            s.append("\t");
            s.append(inst.opcode.as_str());
            s.append("\n");
            assert(s@ =~= inst_text(self.arch, inst@));
        } else {
            s.append("\t");
            s.append(inst.opcode.as_str());
            s.append(" ");
            self.print_ops_into(&mut s, &inst.ops);
            s.append("\n");
            assert(s@ =~= inst_text(self.arch, inst@));
        }
        s
    }

    /// Returns the code-section header
    pub fn print_code_section(&self) -> (r: &'static str)
        ensures
            r@ == section_text(self.arch),
    {
        match self.arch {
            TargetArch::X86 => "section .text\n",
            _ => ".text\n",
        }
    }

    /// Returns the directive that makes `name` global
    pub fn print_global(&self, name: &String) -> (r: String)
        ensures
            r@ == global_text(self.arch, name@),
    {
        let mut s = match self.arch {
            TargetArch::X86 => String::from_str("global "),
            TargetArch::Aarch64 => String::from_str(".global "),
            TargetArch::Riscv64 => String::from_str(".globl "),
        };
        s.append(name.as_str());
        s.append("\n");
        s
    }

    /// Returns the label line of a function
    pub fn print_func_name(&self, name: &String) -> (r: String)
        ensures
            r@ == name@ + ":\n"@,
    {
        let mut s = name.clone();
        s.append(":\n");
        s
    }

    /// Returns the data line of a constant
    pub fn print_const(&self, c: &Constant) -> (r: String)
        ensures
            r@ == "c"@ + decimal(c.id as nat) + ": .byte "@ + bytes_text(c.bytes@) + "\n"@,
    {
        let mut s = String::from_str("c");
        push_decimal(&mut s, c.id as u128);
        s.append(": .byte ");
        let ghost start = s@;
        let mut i: usize = 0;
        while i < c.bytes.len()
            invariant
                i <= c.bytes@.len(),
                s@ == start + bytes_text(c.bytes@.take(i as int)),
            decreases c.bytes@.len() - i,
        {
            if i > 0 {
                s.append(", ");
            }
            push_decimal(&mut s, c.bytes[i] as u128);
            i = i + 1;
            proof {
                let t = c.bytes@.take(i as int);
                assert(t.drop_last() =~= c.bytes@.take(i - 1));
                assert(s@ =~= start + bytes_text(t));
            }
        }
        assert(c.bytes@.take(c.bytes@.len() as int) =~= c.bytes@);
        s.append("\n");
        s
    }

    /// Returns the text of one function
    pub fn print_func(&self, f: &FuncAsm) -> (r: String)
        ensures
            r@ == func_text(self.arch, *f),
    {
        let mut s = String::new();
        if f.scope == Visibilty::Public {
            let g = self.print_global(&f.name);
            s.append(g.as_str());
        }
        let label = self.print_func_name(&f.name);
        s.append(label.as_str());
        let ghost head = s@;
        let mut i: usize = 0;
        while i < f.insts.len()
            invariant
                i <= f.insts@.len(),
                s@ == head + insts_text(self.arch, insts_view(f.insts@.take(i as int))),
            decreases f.insts@.len() - i,
        {
            let line = self.print_inst(&f.insts[i]);
            s.append(line.as_str());
            i = i + 1;
            proof {
                let t = insts_view(f.insts@.take(i as int));
                assert(t.drop_last() =~= insts_view(f.insts@.take(i - 1)));
                assert(s@ =~= head + insts_text(self.arch, t));
            }
        }
        assert(f.insts@.take(f.insts@.len() as int) =~= f.insts@);
        let ghost body = s@;
        let mut j: usize = 0;
        while j < f.consts.len()
            invariant
                j <= f.consts@.len(),
                s@ == body + consts_text(f.consts@.take(j as int)),
            decreases f.consts@.len() - j,
        {
            let line = self.print_const(&f.consts[j]);
            s.append(line.as_str());
            j = j + 1;
            proof {
                let t = f.consts@.take(j as int);
                assert(t.drop_last() =~= f.consts@.take(j - 1));
                assert(s@ =~= body + consts_text(t));
            }
        }
        assert(f.consts@.take(f.consts@.len() as int) =~= f.consts@);
        assert(s@ =~= func_text(self.arch, *f));
        s
    }

    /// Returns the text of a whole compilation, for this backend's syntax
    pub fn print_compilation(&self, compilation: &Compilation) -> (r: String)
        ensures
            r@ == compilation_text(self.arch, compilation.funcs@),
    {
        let mut s = String::from_str(self.print_code_section());
        let ghost head = s@;
        let mut i: usize = 0;
        while i < compilation.funcs.len()
            invariant
                i <= compilation.funcs@.len(),
                head == section_text(self.arch),
                s@ == head + funcs_text(self.arch, compilation.funcs@.take(i as int)),
            decreases compilation.funcs@.len() - i,
        {
            let text = self.print_func(&compilation.funcs[i]);
            s.append(text.as_str());
            i = i + 1;
            proof {
                let t = compilation.funcs@.take(i as int);
                assert(t.drop_last() =~= compilation.funcs@.take(i - 1));
                assert(s@ =~= head + funcs_text(self.arch, t));
            }
        }
        assert(compilation.funcs@.take(compilation.funcs@.len() as int) =~= compilation.funcs@);
        s
    }
}

impl Compilation {
    /// Returns the assembly text of the compilation in its architecture's syntax
    pub fn asm_text(&self) -> (r: String)
        ensures
            r@ == compilation_text(self.arch, self.funcs@),
    {
        self.arch.backend().print_compilation(self)
    }
}

} // verus!
