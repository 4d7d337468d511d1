use vstd::prelude::*;

verus! {

/// The ways in which compiling or decompiling a function can fail. Each one is fatal to
/// the function at hand: no partial result is returned.
#[derive(Debug, Clone, Copy, PartialEq, Eq, Structural)]
pub enum CodegenError {
    /// An operand refers to a value that no earlier node of the function produced.
    UnresolvedOperand,
    /// No lowering pattern of the target matches an IR node.
    UnsupportedOpcode,
    /// No disassembly pattern of the target matches the next instructions.
    UnsupportedInstruction,
    /// Disassembly was asked for a function without instructions.
    EmptyFunction,
}

} // verus!
