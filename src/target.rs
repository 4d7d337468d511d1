use vstd::prelude::*;
use crate::assembly::{insts_view, AssemblyInst};
use crate::error::CodegenError;
use crate::pattern::{accepts, decode_spec, first_accepted, window, decodes_at, disasm_with, lower_with, lowered, table_view, three_address_patterns, three_address_table, Pattern, PatternView};
use crate::regalloc::{AllocatedIrNode, Allocation};
use crate::ty::TypeMetadata;
use crate::x86::{x86_patterns, x86_table};

verus! {

/// The architectures that have a backend.
#[derive(Debug, Clone, Copy, PartialEq, Eq, Structural, Hash)]
pub enum TargetArch {
    /// 64-bit x86 with the System V calling convention
    X86,
    /// 64-bit Arm
    Aarch64,
    /// 64-bit RISC-V
    Riscv64,
}

/// The general-purpose registers the allocator may hand out, in the order it hands them out.
pub open spec fn spec_gprs(arch: TargetArch) -> Seq<usize> {
    match arch {
        TargetArch::X86 => seq![0, 1, 2, 6, 7, 8, 9, 10, 11, 3, 12, 13, 14, 15],
        TargetArch::Aarch64 => Seq::new(29, |i: int| i as usize),
        TargetArch::Riscv64 => Seq::new(22, |i: int| i as usize),
    }
}

/// The registers a caller must save around calls.
pub open spec fn spec_caller_saved(arch: TargetArch) -> Seq<usize> {
    match arch {
        TargetArch::X86 => seq![0, 1, 2, 6, 7, 8, 9, 10, 11],
        TargetArch::Aarch64 => Seq::new(8, |i: int| i as usize),
        TargetArch::Riscv64 => Seq::new(12, |i: int| i as usize),
    }
}

/// The registers a callee must preserve.
pub open spec fn spec_callee_saved(arch: TargetArch) -> Seq<usize> {
    match arch {
        TargetArch::X86 => seq![3, 12, 13, 14, 15],
        TargetArch::Aarch64 => Seq::new(21, |i: int| (i + 8) as usize),
        TargetArch::Riscv64 => Seq::new(10, |i: int| (i + 12) as usize),
    }
}

/// The registers that carry the first arguments, by argument position.
pub open spec fn spec_arg_regs(arch: TargetArch) -> Seq<usize> {
    match arch {
        TargetArch::X86 => seq![7, 6, 1, 2, 8, 9],
        TargetArch::Aarch64 => Seq::new(8, |i: int| i as usize),
        TargetArch::Riscv64 => Seq::new(8, |i: int| i as usize),
    }
}

/// The register that holds the stack pointer.
pub open spec fn spec_stack_ptr(arch: TargetArch) -> usize {
    match arch {
        TargetArch::X86 => 4,
        TargetArch::Aarch64 => 29,
        TargetArch::Riscv64 => 22,
    }
}

/// The register that carries the return value.
pub open spec fn spec_ret_reg(arch: TargetArch) -> usize {
    0
}

/// Where argument `num` of type `ty` is passed: the first arguments in the argument
/// registers, the rest on the stack, the first stack argument in slot 0.
pub open spec fn spec_arg_location(arch: TargetArch, num: usize, ty: TypeMetadata) -> Allocation {
    let regs = spec_arg_regs(arch);
    if num < regs.len() {
        Allocation::Register { id: regs[num as int], ty }
    } else {
        Allocation::Stack { slot: (num - regs.len()) as usize, ty }
    }
}

/// Which argument is passed at `a`, if any.
pub open spec fn spec_num_for_arg(arch: TargetArch, a: Allocation) -> Option<usize> {
    let regs = spec_arg_regs(arch);
    match a {
        Allocation::Register { id, .. } => if exists|i: int| 0 <= i < regs.len() && regs[i] == id {
            Some((choose|i: int| 0 <= i < regs.len() && regs[i] == id) as usize)
        } else {
            None
        },
        Allocation::Stack { slot, .. } => if slot + regs.len() <= usize::MAX {
            Some((slot + regs.len()) as usize)
        } else {
            None
        },
        _ => None,
    }
}

/// The lowering table of the architecture, in the order patterns are tried.
pub open spec fn spec_table(arch: TargetArch) -> Seq<PatternView> {
    match arch {
        TargetArch::X86 => x86_table(),
        TargetArch::Aarch64 => three_address_table(
            "mov"@,
            Allocation::Register { id: 0, ty: TypeMetadata::Int64 },
            Allocation::Register { id: 29, ty: TypeMetadata::Int64 },
        ),
        TargetArch::Riscv64 => three_address_table(
            "mv"@,
            Allocation::Register { id: 0, ty: TypeMetadata::Int64 },
            Allocation::Register { id: 22, ty: TypeMetadata::Int64 },
        ),
    }
}

/// The name of register `id`, if the architecture has one with that number.
pub open spec fn spec_reg_name(arch: TargetArch, id: usize) -> Seq<char> {
    match arch {
        TargetArch::X86 => x86_reg_name(id),
        TargetArch::Aarch64 => aarch64_reg_name(id),
        TargetArch::Riscv64 => riscv64_reg_name(id),
    }
}

/// The name of x86 register `id`, numbered as the hardware numbers them.
pub open spec fn x86_reg_name(id: usize) -> Seq<char> {
    if id == 0 { "rax"@ }
    else if id == 1 { "rcx"@ }
    else if id == 2 { "rdx"@ }
    else if id == 3 { "rbx"@ }
    else if id == 4 { "rsp"@ }
    else if id == 5 { "rbp"@ }
    else if id == 6 { "rsi"@ }
    else if id == 7 { "rdi"@ }
    else if id == 8 { "r8"@ }
    else if id == 9 { "r9"@ }
    else if id == 10 { "r10"@ }
    else if id == 11 { "r11"@ }
    else if id == 12 { "r12"@ }
    else if id == 13 { "r13"@ }
    else if id == 14 { "r14"@ }
    else if id == 15 { "r15"@ }
    else { "?"@ }
}

/// The name of AArch64 register `id`: `x0` to `x28`, then `sp`.
pub open spec fn aarch64_reg_name(id: usize) -> Seq<char> {
    if id == 29 { "sp"@ } else if id < 29 { "x"@ + crate::text::decimal(id as nat) } else { "?"@ }
}

/// The name of RISC-V register `id`: `a0`-`a7`, `t3`-`t6`, `s2`-`s11`, then `sp`.
pub open spec fn riscv64_reg_name(id: usize) -> Seq<char> {
    if id < 8 { "a"@ + crate::text::decimal(id as nat) }
    else if id < 12 { "t"@ + crate::text::decimal((id - 5) as nat) }
    else if id < 22 { "s"@ + crate::text::decimal((id - 10) as nat) }
    else if id == 22 { "sp"@ }
    else { "?"@ }
}

/// The backend of one architecture: register file, calling convention, lowering and
/// disassembly patterns, and assembly printing.
#[derive(Debug, Clone, Copy, PartialEq, Eq, Structural)]
pub struct ArchBackend {
    /// The architecture served
    pub arch: TargetArch,
}

impl TargetArch {
    /// Returns the backend for the architecture
    pub fn backend(&self) -> (r: ArchBackend)
        ensures
            r.arch == *self,
    {
        ArchBackend { arch: *self }
    }
}

fn registers(ids: Vec<usize>) -> (r: Vec<Allocation>)
    ensures
        r@ == ids@.map_values(|id: usize| Allocation::Register { id, ty: TypeMetadata::Int64 }),
{
    let mut r: Vec<Allocation> = Vec::new();
    let mut i: usize = 0;
    while i < ids.len()
        invariant
            i <= ids@.len(),
            r@ == ids@.take(i as int).map_values(|id: usize| Allocation::Register { id, ty: TypeMetadata::Int64 }),
        decreases ids@.len() - i,
    {
        r.push(Allocation::Register { id: ids[i], ty: TypeMetadata::Int64 });
        i = i + 1;
        assert(r@ =~= ids@.take(i as int).map_values(|id: usize| Allocation::Register { id, ty: TypeMetadata::Int64 }));
    }
    assert(ids@.take(ids@.len() as int) =~= ids@);
    r
}

fn counting(from: usize, n: usize) -> (r: Vec<usize>)
    requires
        from + n <= usize::MAX,
    ensures
        r@ == Seq::new(n as nat, |i: int| (i + from) as usize),
{
    let mut r: Vec<usize> = Vec::new();
    let mut i: usize = 0;
    while i < n
        invariant
            i <= n,
            from + n <= usize::MAX,
            r@ == Seq::new(i as nat, |j: int| (j + from) as usize),
        decreases n - i,
    {
        r.push(from + i);
        i = i + 1;
        assert(r@ =~= Seq::new(i as nat, |j: int| (j + from) as usize));
    }
    r
}

impl ArchBackend {
    /// Returns the short name of the backend
    pub fn name(&self) -> (r: &'static str)
        ensures
            r@ == match self.arch {
                TargetArch::X86 => "x86"@,
                TargetArch::Aarch64 => "aarch64"@,
                TargetArch::Riscv64 => "riscv64"@,
            },
    {
        match self.arch {
            TargetArch::X86 => "x86",
            TargetArch::Aarch64 => "aarch64",
            TargetArch::Riscv64 => "riscv64",
        }
    }

    /// Returns the lowering table, in the order patterns are tried
    pub fn patterns(&self) -> (r: Vec<Pattern>)
        ensures
            table_view(r@) == spec_table(self.arch),
    {
        match self.arch {
            TargetArch::X86 => x86_patterns(),
            TargetArch::Aarch64 => three_address_patterns(
                "mov",
                Allocation::Register { id: 0, ty: TypeMetadata::Int64 },
                Allocation::Register { id: 29, ty: TypeMetadata::Int64 },
            ),
            TargetArch::Riscv64 => three_address_patterns(
                "mv",
                Allocation::Register { id: 0, ty: TypeMetadata::Int64 },
                Allocation::Register { id: 22, ty: TypeMetadata::Int64 },
            ),
        }
    }

    /// Lowers an allocated node with the first pattern of the table that applies to it.
    pub fn lower_inst(&self, ir: &AllocatedIrNode) -> (r: Result<Vec<AssemblyInst>, CodegenError>)
        ensures
            match lowered(spec_table(self.arch), ir@) {
                Some(s) => r is Ok && insts_view(r.unwrap()@) == s,
                None => r == Err::<Vec<AssemblyInst>, CodegenError>(CodegenError::UnsupportedOpcode),
            },
    {
        let pats = self.patterns();
        lower_with(&pats, ir)
    }

    /// Reads one allocated node back from the instructions at `start`, returning how many
    /// instructions it consumed. The node lowers back to exactly those instructions.
    pub fn disasm_inst(&self, insts: &Vec<AssemblyInst>, start: usize) -> (r: Result<(usize, AllocatedIrNode), CodegenError>)
        requires
            start <= insts@.len(),
        ensures
            start == insts@.len() ==> r == Err::<(usize, AllocatedIrNode), CodegenError>(CodegenError::EmptyFunction),
            r matches Ok((used, n)) ==> decodes_at(spec_table(self.arch), insts@, start as int, used as int, n),
            r is Ok ==> exists|i: int|
                #[trigger] first_accepted(spec_table(self.arch), window(insts@, start as int), i, r.unwrap().0 as int)
                    && r.unwrap().1@ == decode_spec(spec_table(self.arch)[i], window(insts@, start as int)).unwrap(),
            r matches Err(e) ==> (e == CodegenError::EmptyFunction || e == CodegenError::UnsupportedInstruction),
            start < insts@.len() && r is Err ==> forall|i: int, l: int| !accepts(spec_table(self.arch), window(insts@, start as int), i, l),
            start < insts@.len() && r is Err ==> r == Err::<(usize, AllocatedIrNode), CodegenError>(CodegenError::UnsupportedInstruction),
    {
        let pats = self.patterns();
        disasm_with(&pats, insts, start)
    }

    /// The numbers of the general-purpose registers, in allocation order.
    pub fn gpr_ids(&self) -> (r: Vec<usize>)
        ensures
            r@ == spec_gprs(self.arch),
    {
        match self.arch {
            TargetArch::X86 => {
                let r = vec![0, 1, 2, 6, 7, 8, 9, 10, 11, 3, 12, 13, 14, 15];
                assert(r@ =~= spec_gprs(self.arch));
                r
            },
            TargetArch::Aarch64 => counting(0, 29),
            TargetArch::Riscv64 => counting(0, 22),
        }
    }

    /// Returns the general-purpose registers as allocations, in allocation order
    pub fn grps(&self) -> (r: Vec<Allocation>)
        ensures
            r@ == spec_gprs(self.arch).map_values(|id: usize| Allocation::Register { id, ty: TypeMetadata::Int64 }),
    {
        registers(self.gpr_ids())
    }

    /// Returns the caller-saved general-purpose registers
    pub fn caller_gpr(&self) -> (r: Vec<Allocation>)
        ensures
            r@ == spec_caller_saved(self.arch).map_values(|id: usize| Allocation::Register { id, ty: TypeMetadata::Int64 }),
    {
        let ids = match self.arch {
            TargetArch::X86 => {
                let r = vec![0, 1, 2, 6, 7, 8, 9, 10, 11];
                assert(r@ =~= spec_caller_saved(self.arch));
                r
            },
            TargetArch::Aarch64 => counting(0, 8),
            TargetArch::Riscv64 => counting(0, 12),
        };
        registers(ids)
    }

    /// Returns the callee-saved general-purpose registers
    pub fn callee_gpr(&self) -> (r: Vec<Allocation>)
        ensures
            r@ == spec_callee_saved(self.arch).map_values(|id: usize| Allocation::Register { id, ty: TypeMetadata::Int64 }),
    {
        let ids = match self.arch {
            TargetArch::X86 => {
                let r = vec![3, 12, 13, 14, 15];
                assert(r@ =~= spec_callee_saved(self.arch));
                r
            },
            TargetArch::Aarch64 => counting(8, 21),
            TargetArch::Riscv64 => counting(12, 10),
        };
        registers(ids)
    }

    /// The argument registers, by argument position.
    pub fn arg_regs(&self) -> (r: Vec<usize>)
        ensures
            r@ == spec_arg_regs(self.arch),
    {
        match self.arch {
            TargetArch::X86 => {
                let r = vec![7, 6, 1, 2, 8, 9];
                assert(r@ =~= spec_arg_regs(self.arch));
                r
            },
            _ => counting(0, 8),
        }
    }

    /// Returns the register that carries return values
    pub fn ret_reg(&self) -> (r: Allocation)
        ensures
            r == (Allocation::Register { id: spec_ret_reg(self.arch), ty: TypeMetadata::Int64 }),
    {
        Allocation::Register { id: 0, ty: TypeMetadata::Int64 }
    }

    /// Returns the stack pointer register
    pub fn get_stack_ptr(&self) -> (r: Allocation)
        ensures
            r == (Allocation::Register { id: spec_stack_ptr(self.arch), ty: TypeMetadata::Int64 }),
    {
        let id: usize = match self.arch {
            TargetArch::X86 => 4,
            TargetArch::Aarch64 => 29,
            TargetArch::Riscv64 => 22,
        };
        Allocation::Register { id, ty: TypeMetadata::Int64 }
    }

    /// Returns where argument `num` of type `ty` is passed
    pub fn callconv_argpos(&self, num: usize, ty: TypeMetadata) -> (r: Allocation)
        ensures
            r == spec_arg_location(self.arch, num, ty),
    {
        let regs = self.arg_regs();
        if num < regs.len() {
            Allocation::Register { id: regs[num], ty }
        } else {
            Allocation::Stack { slot: num - regs.len(), ty }
        }
    }

    /// Returns which argument is passed at `op`; `None` where no argument is passed there.
    pub fn num_for_arg(&self, op: &Allocation) -> (r: Option<usize>)
        ensures
            r == spec_num_for_arg(self.arch, *op),
    {
        let regs = self.arg_regs();
        match op {
            Allocation::Register { id, ty } => {
                let mut i: usize = 0;
                while i < regs.len()
                    invariant
                        *op == (Allocation::Register { id: *id, ty: *ty }),
                        regs@ == spec_arg_regs(self.arch),
                        i <= regs@.len(),
                        forall|j: int| 0 <= j < i ==> regs@[j] != *id,
                    decreases regs@.len() - i,
                {
                    if regs[i] == *id {
                        proof {
                            lemma_num_for_arg_reg(self.arch, i as int, Allocation::Register { id: *id, ty: *ty });
                            assert(*op == Allocation::Register { id: *id, ty: *ty });
                        }
                        return Some(i);
                    }
                    i = i + 1;
                }
                None
            },
            Allocation::Stack { slot, .. } => {
                if *slot <= usize::MAX - regs.len() {
                    Some(*slot + regs.len())
                } else {
                    None
                }
            },
            _ => None,
        }
    }
}

/// Every argument register is one the allocator may hand out.
pub proof fn lemma_arg_regs_in_gprs(arch: TargetArch, n: int)
    requires
        0 <= n < spec_arg_regs(arch).len(),
    ensures
        spec_gprs(arch).contains(spec_arg_regs(arch)[n]),
{
    match arch {
        TargetArch::X86 => {
            let g = spec_gprs(arch);
            if n == 0 { assert(g[4] == 7); }
            else if n == 1 { assert(g[3] == 6); }
            else if n == 2 { assert(g[1] == 1); }
            else if n == 3 { assert(g[2] == 2); }
            else if n == 4 { assert(g[5] == 8); }
            else { assert(g[6] == 9); }
        },
        _ => {
            assert(spec_gprs(arch)[n] == n as usize);
        },
    }
}

/// The register that carries argument `i` is recognised as carrying argument `i`.
pub proof fn lemma_num_for_arg_reg(arch: TargetArch, i: int, a: Allocation)
    requires
        0 <= i < spec_arg_regs(arch).len(),
        a is Register,
        a->Register_id == spec_arg_regs(arch)[i],
    ensures
        spec_num_for_arg(arch, a) == Some(i as usize),
{
    let regs = spec_arg_regs(arch);
    let id = a->Register_id;
    assert(0 <= i < regs.len() && regs[i] == id);
    let c = choose|c: int| 0 <= c < regs.len() && regs[c] == id;
    if c < i {
        arg_regs_distinct(arch, c, i);
    } else if c > i {
        arg_regs_distinct(arch, i, c);
    }
}

/// No register carries two arguments.
pub proof fn arg_regs_distinct(arch: TargetArch, i: int, j: int)
    requires
        0 <= i < j < spec_arg_regs(arch).len(),
    ensures
        spec_arg_regs(arch)[i] != spec_arg_regs(arch)[j],
{
}

} // verus!
