use vstd::prelude::*;
use crate::regalloc::Allocation;
use crate::target::riscv64_reg_name;
use crate::text::push_decimal;
use crate::ty::TypeMetadata;
use vstd::string::StringExecFns;

verus! {

/// The a0 register, which also carries return values
pub const A0: usize = 0;
/// The stack pointer
pub const SP: usize = 22;

/// A register of the RISC-V register file: `a0`-`a7` are 0 to 7, `t3`-`t6` are 8 to 11,
/// `s2`-`s11` are 12 to 21, and the stack pointer is 22.
#[derive(Debug, Clone, Copy, PartialEq, Eq, Structural)]
pub struct Riscv64Reg {
    /// The register number
    pub id: usize,
}

impl Riscv64Reg {
    /// Returns the register number
    pub fn id(&self) -> (r: usize)
        ensures
            r == self.id,
    {
        self.id
    }

    /// Returns the name of the register
    pub fn name(&self) -> (r: String)
        ensures
            r@ == riscv64_reg_name(self.id),
    {
        riscv64_name(self.id)
    }

    /// Returns if the allocator may hand the register out
    pub fn is_gpr(&self) -> (r: bool)
        ensures
            r == (self.id < 22),
    {
        self.id < 22
    }

    /// Returns if a caller must save the register
    pub fn caller_saved(&self) -> (r: bool)
        ensures
            r == (self.id < 12),
    {
        self.id < 12
    }

    /// Returns the register as an allocation
    pub fn to_allocation(&self) -> (r: Allocation)
        ensures
            r == (Allocation::Register { id: self.id, ty: TypeMetadata::Int64 }),
    {
        Allocation::Register { id: self.id, ty: TypeMetadata::Int64 }
    }
}

/// Returns the name of RISC-V register `id`.
pub fn riscv64_name(id: usize) -> (r: String)
    ensures
        r@ == riscv64_reg_name(id),
{
    if id < 8 {
        let mut s = String::from_str("a");
        push_decimal(&mut s, id as u128);
        s
    } else if id < 12 {
        let mut s = String::from_str("t");
        push_decimal(&mut s, (id - 5) as u128);
        s
    } else if id < 22 {
        let mut s = String::from_str("s");
        push_decimal(&mut s, (id - 10) as u128);
        s
    } else if id == SP {
        String::from_str("sp")
    } else {
        String::from_str("?")
    }
}

} // verus!
