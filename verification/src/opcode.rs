//! The decoded instruction set and the faults an instruction can raise.

use vstd::prelude::*;

verus! {

/// Index of a general-purpose register; valid values are 0 through 15.
#[derive(Clone, Copy, Debug, PartialEq, Eq)]
pub struct Register(pub u8);

/// A 12-bit address operand (the low 12 bits of an instruction word).
#[derive(Clone, Copy, Debug, PartialEq, Eq)]
pub struct Nnn(pub u16);

/// An 8-bit immediate operand (the low byte of an instruction word).
#[derive(Clone, Copy, Debug, PartialEq, Eq)]
pub struct Kk(pub u8);

/// A 4-bit count operand (the low nibble of an instruction word).
#[derive(Clone, Copy, Debug, PartialEq, Eq)]
pub struct N(pub u8);

/// A decoded operation, carrying only the operands its kind needs.
#[derive(Clone, Copy, Debug, PartialEq, Eq)]
pub enum Opcode {
    /// Clear the display (a documented no-op in this core).
    CLS,
    /// Set the index register to an address.
    LDI(Nnn),
    /// Set a register to an immediate value.
    LD6(Register, Kk),
    /// Add an immediate value to a register with 8-bit wraparound.
    ADD(Register, Kk),
    /// Draw a sprite of the given number of rows at register-held coordinates.
    DRW(Register, Register, N),
}

impl Opcode {
    /// Every operand lies in the range its bit field allows; the decoder
    /// guarantees this by construction.
    pub open spec fn wf(self) -> bool {
        match self {
            Opcode::CLS => true,
            Opcode::LDI(Nnn(a)) => a <= 0xfff,
            Opcode::LD6(Register(x), Kk(_)) => x <= 0xf,
            Opcode::ADD(Register(x), Kk(_)) => x <= 0xf,
            Opcode::DRW(Register(x), Register(y), N(n)) => x <= 0xf && y <= 0xf && n <= 0xf,
        }
    }
}

/// The conditions under which the core refuses to go on, each fatal to a run.
#[derive(Clone, Copy, Debug, PartialEq, Eq)]
pub enum Fault {
    /// An instruction word outside the supported set was fetched.
    UnsupportedInstruction(u16),
    /// A read targeted the reserved font or interpreter region below the
    /// program origin.
    ReservedMemoryAccess(u16),
    /// A read targeted an address at or past the end of the memory image.
    MemoryOutOfRange,
    /// A draw would toggle a cell outside the pixel buffer.
    OutOfBoundsDraw,
}

} // verus!
