use vstd::prelude::*;
use crate::regalloc::Allocation;
use crate::target::aarch64_reg_name;
use crate::text::push_decimal;
use crate::ty::TypeMetadata;
use vstd::string::StringExecFns;

verus! {

/// The x0 register, which also carries return values
pub const X0: usize = 0;
/// The stack pointer
pub const SP: usize = 29;

/// A register of the AArch64 register file: `x0` to `x28` by number, and the stack pointer.
#[derive(Debug, Clone, Copy, PartialEq, Eq, Structural)]
pub struct Aarch64Reg {
    /// The register number
    pub id: usize,
}

impl Aarch64Reg {
    /// Returns the register number
    pub fn id(&self) -> (r: usize)
        ensures
            r == self.id,
    {
        self.id
    }

    /// Returns the name of the register
    pub fn name(&self) -> (r: String)
        ensures
            r@ == aarch64_reg_name(self.id),
    {
        aarch64_name(self.id)
    }

    /// Returns if the allocator may hand the register out
    pub fn is_gpr(&self) -> (r: bool)
        ensures
            r == (self.id < 29),
    {
        self.id < 29
    }

    /// Returns if a caller must save the register
    pub fn caller_saved(&self) -> (r: bool)
        ensures
            r == (self.id < 8),
    {
        self.id < 8
    }

    /// Returns the register as an allocation
    pub fn to_allocation(&self) -> (r: Allocation)
        ensures
            r == (Allocation::Register { id: self.id, ty: TypeMetadata::Int64 }),
    {
        Allocation::Register { id: self.id, ty: TypeMetadata::Int64 }
    }
}

/// Returns the name of AArch64 register `id`.
pub fn aarch64_name(id: usize) -> (r: String)
    ensures
        r@ == aarch64_reg_name(id),
{
    if id == SP {
        String::from_str("sp")
    } else if id < 29 {
        let mut s = String::from_str("x");
        push_decimal(&mut s, id as u128);
        s
    } else {
        String::from_str("?")
    }
}

} // verus!
