//! The traps that an instruction on a memory or a table can raise.
use vstd::prelude::*;

verus! {

/// A trap raised by an operation on a memory or a table.
#[derive(Clone, Copy, Debug, PartialEq, Eq, Hash, Structural)]
pub enum Trap {
    /// An access to a memory was out of bounds.
    MemAccessOutOfBounds,
    /// An access to a table was out of bounds.
    TableAccessOutOfBounds,
}

impl Trap {
    /// Returns the message that describes this trap.
    pub fn message(&self) -> (r: &'static str)
        ensures
            r@ == (match self {
                Trap::MemAccessOutOfBounds => "out of bounds memory access"@,
                Trap::TableAccessOutOfBounds => "out of bounds table access"@,
            }),
    {
        match self {
            Trap::MemAccessOutOfBounds => "out of bounds memory access",
            Trap::TableAccessOutOfBounds => "out of bounds table access",
        }
    }
}

} // verus!
