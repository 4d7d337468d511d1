//! A small multi-target code generator: a flat integer IR is cleaned by dead-code
//! elimination, annotated with last uses, bound to registers and stack slots, and
//! lowered through per-target pattern tables into assembly records. The pattern
//! tables also drive the reverse direction, from assembly back to IR.

pub mod ty;
pub mod ir;
pub mod error;
pub mod opt;
pub mod dropper;
pub mod text;
pub mod target;
pub mod regalloc;
pub mod assembly;
pub mod pattern;
pub mod x86;
pub mod aarch64;
pub mod riscv64;
pub mod printer;
pub mod inst_selec;
pub mod module;
pub mod decompile;
pub mod laws;

pub use assembly::{AssemblyInst, CommentedInst, Compilation, Constant, FuncAsm};
pub use decompile::{DeRegAlloc, DecompilationHelper, TypeExtractor};
pub use dropper::Dropper;
pub use error::CodegenError;
pub use inst_selec::InstSelector;
pub use ir::{Function, InstrincSettings, InstrincType, IrNode, IrOpcode, IrOperand, Visibilty};
pub use module::{Module, OptPass};
pub use opt::{Dce, Optimization};
pub use regalloc::{AllocatedIrNode, Allocation, RegAlloc};
pub use target::{ArchBackend, TargetArch};
pub use ty::TypeMetadata;
pub use aarch64::Aarch64Reg;
pub use riscv64::Riscv64Reg;
pub use x86::X86Reg;
