//! A minimal virtual-machine execution core: instructions are fetched two
//! bytes at a time from an addressable memory image, decoded into a closed
//! instruction set, and executed against a register file and a monochrome
//! pixel buffer.

use vstd::prelude::*;

pub mod decode;
pub mod exec;
pub mod frame;
pub mod machine;
pub mod memory;
pub mod opcode;
pub mod registers;

verus! {

/// Width of the pixel buffer, in cells.
pub const WIDTH: usize = 64;

/// Height of the pixel buffer, in cells.
pub const HEIGHT: usize = 32;

/// Number of bytes in the memory image.
pub const MEMORY_LENGTH: usize = 0xfff;

/// Address where the program image begins; everything below it is reserved
/// for the system font and the interpreter itself.
pub const PROGRAM_OFFSET: u16 = 0x200;

} // verus!
