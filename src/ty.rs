use vstd::prelude::*;

verus! {

/// The scalar types that IR values can have. Every value is currently a 64-bit integer.
#[derive(Debug, Clone, Copy, PartialEq, Eq, Structural, Hash)]
pub enum TypeMetadata {
    /// A 64-bit integer
    Int64,
}

} // verus!
