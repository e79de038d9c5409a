//! The register file: sixteen 8-bit general-purpose registers and one 16-bit
//! index register.

use vstd::prelude::*;

use crate::opcode::Register;

verus! {

/// The mathematical content of a register file: the sixteen register values
/// and the index register.
pub struct RegistersView {
    pub regs: Seq<u8>,
    pub i: u16,
}

/// The register bank. Register index arguments must lie in [0, 15]; the
/// decoder only ever constructs indices from a 4-bit field, so callers can
/// always meet that bound.
pub struct Registers {
    registers: [u8; 16],
    i: u16,
}

impl View for Registers {
    type V = RegistersView;

    closed spec fn view(&self) -> RegistersView {
        RegistersView { regs: self.registers@, i: self.i }
    }
}

impl Registers {
    /// A fresh register file with every register, and the index, zero.
    pub fn new() -> (r: Self)
        ensures
            r@.regs.len() == 16,
            forall|j: int| 0 <= j < 16 ==> r@.regs[j] == 0u8,
            r@.i == 0u16,
    {
        Self { registers: [0u8; 16], i: 0 }
    }

    /// The value held by the given general-purpose register.
    pub fn read(&self, register: &Register) -> (v: u8)
        requires
            register.0 <= 0xf,
        ensures
            v == self@.regs[register.0 as int],
    {
        self.registers[register.0 as usize]
    }

    /// Store a value in the given general-purpose register; the other
    /// registers and the index are untouched.
    pub fn write(&mut self, register: &Register, value: u8)
        requires
            register.0 <= 0xf,
        ensures
            final(self)@.regs == old(self)@.regs.update(register.0 as int, value),
            final(self)@.i == old(self)@.i,
    {
        self.registers[register.0 as usize] = value;
    }

    /// The address held by the wide index register.
    pub fn index(&self) -> (a: u16)
        ensures
            a == self@.i,
    {
        self.i
    }

    /// Point the wide index register at an address; the general-purpose
    /// registers are untouched.
    pub fn set_index(&mut self, addr: u16)
        ensures
            final(self)@.regs == old(self)@.regs,
            final(self)@.i == addr,
    {
        self.i = addr;
    }
}

} // verus!
