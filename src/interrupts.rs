//! Numbering of the hardware interrupt lines after the interrupt
//! controllers are remapped.

use vstd::prelude::*;

verus! {

/// First vector of the primary interrupt controller.
pub const PIC_1_OFFSET: u8 = 32;

/// First vector of the secondary interrupt controller.
pub const PIC_2_OFFSET: u8 = PIC_1_OFFSET + 8;

/// The keyboard controller's data port.
pub const KEYBOARD_PORT: u16 = 0x60;

/// The interrupt lines this kernel serves, in vector order from
/// `PIC_1_OFFSET`.
#[derive(Clone, Copy, Debug, PartialEq, Eq, Structural)]
pub enum InterruptIndex {
    Timer,
    Keyboard,
}

impl InterruptIndex {
    pub open spec fn vector(self) -> nat {
        match self {
            InterruptIndex::Timer => PIC_1_OFFSET as nat,
            InterruptIndex::Keyboard => PIC_1_OFFSET as nat + 1,
        }
    }

    /// The line's vector number.
    pub fn as_u8(self) -> (r: u8)
        ensures
            r == self.vector(),
    {
        match self {
            InterruptIndex::Timer => PIC_1_OFFSET,
            InterruptIndex::Keyboard => PIC_1_OFFSET + 1,
        }
    }

    /// The line's vector number, as an index into the descriptor table.
    pub fn as_usize(self) -> (r: usize)
        ensures
            r == self.vector(),
    {
        self.as_u8() as usize
    }
}

} // verus!
