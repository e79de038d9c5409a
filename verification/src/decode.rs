//! The decoder: a pure function from a raw 16-bit instruction word to a
//! typed operation, total exactly over the supported opcode space.

use vstd::prelude::*;

use crate::opcode::Kk;
use crate::opcode::N;
use crate::opcode::Nnn;
use crate::opcode::Opcode;
use crate::opcode::Register;

verus! {

/// The low 12 bits of an instruction word: an address operand.
pub open spec fn nnn_of(w: u16) -> u16 {
    w & 0x0fff
}

/// The low byte of an instruction word: an immediate operand.
pub open spec fn kk_of(w: u16) -> u8 {
    (w & 0x00ff) as u8
}

/// Bits 8 through 11 of an instruction word: the first register operand.
pub open spec fn x_of(w: u16) -> u8 {
    ((w >> 8) & 0xf) as u8
}

/// Bits 4 through 7 of an instruction word: the second register operand.
pub open spec fn y_of(w: u16) -> u8 {
    ((w >> 4) & 0xf) as u8
}

/// The low nibble of an instruction word: a count operand.
pub open spec fn n_of(w: u16) -> u8 {
    (w & 0x000f) as u8
}

/// True of the instruction words this core decodes. Dispatch is on the top
/// nibble; under top nibble 0 exactly the clear-screen word is recognized.
pub open spec fn supported(w: u16) -> bool {
    ||| w == 0x00e0
    ||| w >> 12 == 0x6
    ||| w >> 12 == 0x7
    ||| w >> 12 == 0xa
    ||| w >> 12 == 0xd
}

/// The operation a supported instruction word denotes.
pub open spec fn decoded(w: u16) -> Opcode {
    if w == 0x00e0 {
        Opcode::CLS
    } else if w >> 12 == 0x6 {
        Opcode::LD6(Register(x_of(w)), Kk(kk_of(w)))
    } else if w >> 12 == 0x7 {
        Opcode::ADD(Register(x_of(w)), Kk(kk_of(w)))
    } else if w >> 12 == 0xa {
        Opcode::LDI(Nnn(nnn_of(w)))
    } else {
        Opcode::DRW(Register(x_of(w)), Register(y_of(w)), N(n_of(w)))
    }
}

/// Each extracted bit field lies in the range its width allows.
pub proof fn lemma_fields_bounded(w: u16)
    by (bit_vector)
    ensures
        nnn_of(w) <= 0xfff,
        x_of(w) <= 0xf,
        y_of(w) <= 0xf,
        n_of(w) <= 0xf,
{
}

/// The clear-screen word lives under top nibble 0, so the dispatch arms for
/// the other nibbles can never see it.
pub proof fn lemma_clear_screen_nibble(w: u16)
    by (bit_vector)
    ensures
        w == 0x00e0 ==> w >> 12 == 0x0,
{
}

/// A supported word decodes to a well-formed operation.
pub proof fn lemma_decoded_wf(w: u16)
    ensures
        decoded(w).wf(),
{
    lemma_fields_bounded(w);
}

/// Decode an instruction word, or report it unsupported. The word itself is
/// handed back in the error so the caller can say which word was refused.
pub fn decode(instruction: u16) -> (r: Result<Opcode, u16>)
    ensures
        supported(instruction) ==> r == Ok::<Opcode, u16>(decoded(instruction)),
        !supported(instruction) ==> r == Err::<Opcode, u16>(instruction),
        r is Ok ==> r->Ok_0.wf(),
{
    proof {
        lemma_decoded_wf(instruction);
        lemma_clear_screen_nibble(instruction);
    }
    // Extract every bit field up front, whether or not the matched opcode
    // needs it: simplicity over micro-efficiency.
    let nnn = Nnn(instruction & 0x0fff);
    let kk = Kk((instruction & 0x00ff) as u8);
    let x = Register(((instruction >> 8) & 0xf) as u8);
    let y = Register(((instruction >> 4) & 0xf) as u8);
    let n = N((instruction & 0x000f) as u8);
    match instruction >> 12 {
        0x0 => {
            if instruction == 0x00e0 {
                Ok(Opcode::CLS)
            } else {
                // Other words start with 0 but only clear-screen is needed.
                Err(instruction)
            }
        },
        0x6 => Ok(Opcode::LD6(x, kk)),
        0x7 => Ok(Opcode::ADD(x, kk)),
        0xa => Ok(Opcode::LDI(nnn)),
        0xd => Ok(Opcode::DRW(x, y, n)),
        _ => Err(instruction),
    }
}

} // verus!
