//! The executor: applies a decoded operation's effect to the register file,
//! the memory image, and the pixel buffer, then advances the instruction
//! pointer by two.

use vstd::arithmetic::div_mod::lemma_fundamental_div_mod;
use vstd::arithmetic::div_mod::lemma_fundamental_div_mod_converse;
use vstd::prelude::*;

use crate::frame::cell_index;
use crate::frame::FrameBuffer;
use crate::memory::Memory;
use crate::opcode::Fault;
use crate::opcode::Kk;
use crate::opcode::N;
use crate::opcode::Nnn;
use crate::opcode::Opcode;
use crate::opcode::Register;
use crate::registers::Registers;
use crate::registers::RegistersView;
use crate::HEIGHT;
use crate::MEMORY_LENGTH;
use crate::PROGRAM_OFFSET;
use crate::WIDTH;

verus! {

/// Modulo-256 addition: overflow wraps around and is defined behavior.
pub open spec fn wrap_add8(a: u8, b: u8) -> u8 {
    ((a + b) % 256) as u8
}

/// The wrapping addition of the machine agrees with modulo-256 addition.
pub proof fn lemma_wrap_add8(a: u8, b: u8)
    by (bit_vector)
    ensures
        wrap_add8(a, b) == if a + b > 0xff {
            (a + b - 0x100) as u8
        } else {
            (a + b) as u8
        },
{
}

/// Whether bit `k` of a sprite row is set, counting from the most
/// significant bit.
pub open spec fn sprite_bit(line: u8, k: int) -> bool {
    line & (0x80u8 >> (k as u8)) != 0
}

/// The register file after an operation. Only the register and index
/// operations touch it; clear and draw leave it as it was.
pub open spec fn regs_after(op: Opcode, rv: RegistersView) -> RegistersView {
    match op {
        Opcode::CLS => rv,
        Opcode::LDI(Nnn(a)) => RegistersView { regs: rv.regs, i: a },
        Opcode::LD6(Register(x), Kk(v)) => RegistersView {
            regs: rv.regs.update(x as int, v),
            i: rv.i,
        },
        Opcode::ADD(Register(x), Kk(v)) => RegistersView {
            regs: rv.regs.update(x as int, wrap_add8(rv.regs[x as int], v)),
            i: rv.i,
        },
        Opcode::DRW(_, _, _) => rv,
    }
}

/// The fault raised by reading the sprite byte of row `r`, if any: the
/// address must not fall in the reserved regions below the program origin,
/// nor past the end of the memory image.
pub open spec fn row_read_fault(i: int, r: int) -> Option<Fault> {
    if i + r < PROGRAM_OFFSET as int {
        Some(Fault::ReservedMemoryAccess((i + r) as u16))
    } else if i + r >= MEMORY_LENGTH as int {
        Some(Fault::MemoryOutOfRange)
    } else {
        None
    }
}

/// Whether bit `k` of sprite row `r`, drawn at origin (`x0`, `y0`), lands
/// inside the pixel grid.
pub open spec fn bit_in_bounds(x0: int, y0: int, r: int, k: int) -> bool {
    x0 + k < WIDTH as int && y0 + r < HEIGHT as int
}

/// Whether some set bit of this sprite row would land outside the grid.
pub open spec fn row_bits_oob(line: u8, x0: int, y0: int, r: int) -> bool {
    exists|k: int| 0 <= k < 8 && sprite_bit(line, k) && !bit_in_bounds(x0, y0, r, k)
}

/// Row `r` of a draw neither reads a forbidden address nor toggles outside
/// the grid.
pub open spec fn row_ok(mem: Seq<u8>, i: int, x0: int, y0: int, r: int) -> bool {
    row_read_fault(i, r) is None && !row_bits_oob(mem[i + r], x0, y0, r)
}

/// The first fault of a draw, scanning rows from `r` upward in the order
/// the machine visits them, or `None` when every remaining row is fine.
pub open spec fn draw_fault_from(
    mem: Seq<u8>,
    i: int,
    x0: int,
    y0: int,
    rows: int,
    r: int,
) -> Option<Fault>
    decreases rows - r,
{
    if r >= rows {
        None
    } else if row_read_fault(i, r) is Some {
        row_read_fault(i, r)
    } else if row_bits_oob(mem[i + r], x0, y0, r) {
        Some(Fault::OutOfBoundsDraw)
    } else {
        draw_fault_from(mem, i, x0, y0, rows, r + 1)
    }
}

/// The first fault of a whole draw of `rows` sprite rows at (`x0`, `y0`).
pub open spec fn draw_fault(mem: Seq<u8>, i: int, x0: int, y0: int, rows: int) -> Option<Fault> {
    draw_fault_from(mem, i, x0, y0, rows, 0)
}

/// The fault an operation raises against the given state, if any. Only
/// draw can fault; every other operation always goes through.
pub open spec fn exec_fault(op: Opcode, rv: RegistersView, mem: Seq<u8>) -> Option<Fault> {
    match op {
        Opcode::DRW(Register(x), Register(y), N(n)) => draw_fault(
            mem,
            rv.i as int,
            rv.regs[x as int] as int,
            rv.regs[y as int] as int,
            n as int,
        ),
        _ => None,
    }
}

/// The pixel buffer after a fault-free draw: a cell covered by a set sprite
/// bit is toggled, every other cell keeps its state.
pub open spec fn draw_result(
    fb: Seq<bool>,
    mem: Seq<u8>,
    i: int,
    x0: int,
    y0: int,
    rows: int,
) -> Seq<bool> {
    Seq::new(
        fb.len(),
        |l: int|
            {
                let x = l % (WIDTH as int);
                let y = l / (WIDTH as int);
                if y0 <= y < y0 + rows && x0 <= x < x0 + 8 && sprite_bit(mem[i + (y - y0)], x - x0) {
                    !fb[l]
                } else {
                    fb[l]
                }
            },
    )
}

/// The pixel buffer after an operation: only draw touches it; clear is a
/// documented no-op, correct here because exactly one frame is ever drawn
/// into a buffer that starts cleared.
pub open spec fn fb_after(op: Opcode, rv: RegistersView, mem: Seq<u8>, fb: Seq<bool>) -> Seq<bool> {
    match op {
        Opcode::DRW(Register(x), Register(y), N(n)) => draw_result(
            fb,
            mem,
            rv.i as int,
            rv.regs[x as int] as int,
            rv.regs[y as int] as int,
            n as int,
        ),
        _ => fb,
    }
}

/// Whether the cell at (`x`, `y`) has already been visited by a draw that
/// has finished rows 0 through `r - 1` and, on row `r`, bits 0 through
/// `k - 1`.
pub open spec fn drawn_before(x0: int, y0: int, r: int, k: int, x: int, y: int) -> bool {
    x0 <= x < x0 + 8 && y0 <= y && (y - y0 < r || (y - y0 == r && x - x0 < k))
}

/// The pixel buffer part-way through a draw: every visited cell covered by
/// a set sprite bit has been toggled, the rest still hold their old state.
pub open spec fn draw_partial(
    fb: Seq<bool>,
    mem: Seq<u8>,
    i: int,
    x0: int,
    y0: int,
    r: int,
    k: int,
) -> Seq<bool> {
    Seq::new(
        fb.len(),
        |l: int|
            {
                let x = l % (WIDTH as int);
                let y = l / (WIDTH as int);
                if drawn_before(x0, y0, r, k, x, y) && sprite_bit(mem[i + (y - y0)], x - x0) {
                    !fb[l]
                } else {
                    fb[l]
                }
            },
    )
}

/// Before any row has been drawn, the buffer is untouched.
proof fn lemma_draw_partial_start(fb: Seq<bool>, mem: Seq<u8>, i: int, x0: int, y0: int)
    ensures
        draw_partial(fb, mem, i, x0, y0, 0, 0) == fb,
{
    assert(draw_partial(fb, mem, i, x0, y0, 0, 0) =~= fb);
}

/// Finishing the eight bits of row `r` is the same as standing at the start
/// of row `r + 1`.
proof fn lemma_draw_partial_row_end(
    fb: Seq<bool>,
    mem: Seq<u8>,
    i: int,
    x0: int,
    y0: int,
    r: int,
)
    requires
        0 <= r,
    ensures
        draw_partial(fb, mem, i, x0, y0, r, 8) == draw_partial(fb, mem, i, x0, y0, r + 1, 0),
{
    assert(draw_partial(fb, mem, i, x0, y0, r, 8) =~= draw_partial(fb, mem, i, x0, y0, r + 1, 0));
}

/// Once every row has been drawn, the partial buffer is the full draw
/// result.
proof fn lemma_draw_partial_done(
    fb: Seq<bool>,
    mem: Seq<u8>,
    i: int,
    x0: int,
    y0: int,
    rows: int,
)
    requires
        0 <= rows,
    ensures
        draw_partial(fb, mem, i, x0, y0, rows, 0) == draw_result(fb, mem, i, x0, y0, rows),
{
    assert(draw_partial(fb, mem, i, x0, y0, rows, 0) =~= draw_result(fb, mem, i, x0, y0, rows));
}

/// Passing over an unset sprite bit leaves the buffer as it was.
proof fn lemma_draw_partial_skip(
    fb: Seq<bool>,
    mem: Seq<u8>,
    i: int,
    x0: int,
    y0: int,
    r: int,
    k: int,
)
    requires
        0 <= r,
        0 <= k < 8,
        !sprite_bit(mem[i + r], k),
    ensures
        draw_partial(fb, mem, i, x0, y0, r, k + 1) == draw_partial(fb, mem, i, x0, y0, r, k),
{
    assert(draw_partial(fb, mem, i, x0, y0, r, k + 1) =~= draw_partial(fb, mem, i, x0, y0, r, k));
}

/// Visiting a set, in-bounds sprite bit toggles exactly the one cell under
/// it.
proof fn lemma_draw_partial_toggle(
    fb: Seq<bool>,
    mem: Seq<u8>,
    i: int,
    x0: int,
    y0: int,
    r: int,
    k: int,
)
    requires
        fb.len() == WIDTH as int * HEIGHT as int,
        0 <= x0,
        0 <= y0,
        0 <= r,
        0 <= k < 8,
        x0 + k < WIDTH as int,
        y0 + r < HEIGHT as int,
        sprite_bit(mem[i + r], k),
    ensures
        0 <= cell_index(x0 + k, y0 + r) < fb.len(),
        draw_partial(fb, mem, i, x0, y0, r, k)[cell_index(x0 + k, y0 + r)] == fb[cell_index(
            x0 + k,
            y0 + r,
        )],
        draw_partial(fb, mem, i, x0, y0, r, k + 1) == draw_partial(fb, mem, i, x0, y0, r, k).update(
            cell_index(x0 + k, y0 + r),
            !fb[cell_index(x0 + k, y0 + r)],
        ),
{
    let w = WIDTH as int;
    let lstar = cell_index(x0 + k, y0 + r);
    lemma_fundamental_div_mod_converse(lstar, w, y0 + r, x0 + k);
    assert(lstar % w == x0 + k && lstar / w == y0 + r);
    assert(0 <= lstar < fb.len());
    assert(!drawn_before(x0, y0, r, k, x0 + k, y0 + r));
    let before = draw_partial(fb, mem, i, x0, y0, r, k);
    let after = draw_partial(fb, mem, i, x0, y0, r, k + 1);
    let updated = before.update(lstar, !fb[lstar]);
    assert forall|l: int| 0 <= l < fb.len() implies after[l] == updated[l] by {
        lemma_fundamental_div_mod(l, w);
        let x = l % w;
        let y = l / w;
        if l != lstar {
            if y - y0 == r && x - x0 == k {
                assert(l == y * w + x);
                assert(l == lstar);
            }
            assert(drawn_before(x0, y0, r, k + 1, x, y) == drawn_before(x0, y0, r, k, x, y));
        }
    }
    assert(after =~= updated);
}

/// While every row before `r` is fault-free, the first fault of the whole
/// draw is the first fault at or past `r`.
proof fn lemma_draw_fault_prefix(mem: Seq<u8>, i: int, x0: int, y0: int, rows: int, r: int)
    requires
        0 <= r <= rows,
        forall|r2: int| 0 <= r2 < r ==> row_ok(mem, i, x0, y0, r2),
    ensures
        draw_fault(mem, i, x0, y0, rows) == draw_fault_from(mem, i, x0, y0, rows, r),
    decreases r,
{
    if r > 0 {
        lemma_draw_fault_prefix(mem, i, x0, y0, rows, r - 1);
        assert(row_ok(mem, i, x0, y0, r - 1));
    }
}

/// Draw `height` sprite rows, read from memory at the index register, at
/// the origin held by the two named registers. The buffer is only touched
/// when the whole draw is free of faults; on a fault nothing changes and
/// the first fault, in the machine's visiting order, is reported.
#[verifier::loop_isolation(false)]
fn draw(
    memory: &Memory,
    registers: &Registers,
    frame_buffer: &mut FrameBuffer,
    x_register: Register,
    y_register: Register,
    height: u8,
) -> (r: Result<(), Fault>)
    requires
        x_register.0 <= 0xf,
        y_register.0 <= 0xf,
        height <= 0xf,
        old(frame_buffer).wf(),
    ensures
        final(frame_buffer).wf(),
        ({
            let i = registers@.i as int;
            let x0 = registers@.regs[x_register.0 as int] as int;
            let y0 = registers@.regs[y_register.0 as int] as int;
            match draw_fault(memory@, i, x0, y0, height as int) {
                Some(f) => r == Err::<(), Fault>(f) && final(frame_buffer)@ == old(frame_buffer)@,
                None => r == Ok::<(), Fault>(()) && final(frame_buffer)@ == draw_result(
                    old(frame_buffer)@,
                    memory@,
                    i,
                    x0,
                    y0,
                    height as int,
                ),
            }
        }),
{
    let x_offset = registers.read(&x_register);
    let y_offset = registers.read(&y_register);
    let index = registers.index();
    let ghost mem = memory@;
    let ghost gi = index as int;
    let ghost gx0 = x_offset as int;
    let ghost gy0 = y_offset as int;
    let ghost rows = height as int;

    // First pass: scan the rows in visiting order for the first fault,
    // before touching the buffer.
    let mut r: u8 = 0;
    while r < height
        invariant
            r <= height,
            forall|r2: int| 0 <= r2 < r ==> row_ok(mem, gi, gx0, gy0, r2),
        decreases height - r,
    {
        proof {
            lemma_draw_fault_prefix(mem, gi, gx0, gy0, rows, r as int);
        }
        let address: u32 = index as u32 + r as u32;
        if address < PROGRAM_OFFSET as u32 {
            return Err(Fault::ReservedMemoryAccess(address as u16));
        }
        if address >= MEMORY_LENGTH as u32 {
            return Err(Fault::MemoryOutOfRange);
        }
        let line = memory.read(address as u16);
        let mut k: u8 = 0;
        while k < 8
            invariant
                k <= 8,
                forall|k2: int|
                    0 <= k2 < k ==> !(sprite_bit(line, k2) && !bit_in_bounds(
                        gx0,
                        gy0,
                        r as int,
                        k2,
                    )),
            decreases 8 - k,
        {
            if (line & (0x80u8 >> k)) != 0 {
                let x = x_offset as usize + k as usize;
                let y = y_offset as usize + r as usize;
                if !(x < WIDTH && y < HEIGHT) {
                    proof {
                        assert(sprite_bit(line, k as int) && !bit_in_bounds(
                            gx0,
                            gy0,
                            r as int,
                            k as int,
                        ));
                        assert(row_bits_oob(line, gx0, gy0, r as int));
                    }
                    return Err(Fault::OutOfBoundsDraw);
                }
            }
            k = k + 1;
        }
        proof {
            assert(!row_bits_oob(mem[gi + r], gx0, gy0, r as int));
            assert(row_ok(mem, gi, gx0, gy0, r as int));
        }
        r = r + 1;
    }
    proof {
        lemma_draw_fault_prefix(mem, gi, gx0, gy0, rows, rows);
        assert(draw_fault(mem, gi, gx0, gy0, rows) is None);
    }

    // Second pass: every row is known fault-free; toggle the cells under
    // the set sprite bits.
    let ghost fb0 = frame_buffer@;
    let mut r: u8 = 0;
    while r < height
        invariant
            r <= height,
            frame_buffer.wf(),
            frame_buffer@ == draw_partial(fb0, mem, gi, gx0, gy0, r as int, 0),
        decreases height - r,
    {
        assert(row_ok(mem, gi, gx0, gy0, r as int));
        let line = memory.read(index + r as u16);
        let mut k: u8 = 0;
        while k < 8
            invariant
                k <= 8,
                frame_buffer.wf(),
                frame_buffer@ == draw_partial(fb0, mem, gi, gx0, gy0, r as int, k as int),
        decreases 8 - k,
        {
            if (line & (0x80u8 >> k)) != 0 {
                assert(sprite_bit(line, k as int));
                assert(bit_in_bounds(gx0, gy0, r as int, k as int));
                let x = x_offset as usize + k as usize;
                let y = y_offset as usize + r as usize;
                let l = y * WIDTH + x;
                proof {
                    lemma_draw_partial_toggle(fb0, mem, gi, gx0, gy0, r as int, k as int);
                }
                frame_buffer.toggle(l);
            } else {
                proof {
                    lemma_draw_partial_skip(fb0, mem, gi, gx0, gy0, r as int, k as int);
                }
            }
            k = k + 1;
        }
        proof {
            lemma_draw_partial_row_end(fb0, mem, gi, gx0, gy0, r as int);
        }
        r = r + 1;
    }
    proof {
        lemma_draw_partial_done(fb0, mem, gi, gx0, gy0, rows);
    }
    Ok(())
}

/// Apply a decoded operation to the machine state, then advance the
/// instruction pointer by two (no supported operation redirects control
/// flow). On a fault nothing changes, the pointer included, and the fault
/// the state raises is reported; memory is never written by this
/// instruction subset.
pub fn execute(
    opcode: Opcode,
    memory: &mut Memory,
    registers: &mut Registers,
    frame_buffer: &mut FrameBuffer,
    pc: &mut u16,
) -> (r: Result<(), Fault>)
    requires
        opcode.wf(),
        old(frame_buffer).wf(),
        *old(pc) + 2 <= u16::MAX,
    ensures
        final(memory)@ == old(memory)@,
        final(frame_buffer).wf(),
        (r is Ok) == (exec_fault(opcode, old(registers)@, old(memory)@) is None),
        r is Err ==> Some(r->Err_0) == exec_fault(opcode, old(registers)@, old(memory)@)
            && final(registers)@ == old(registers)@ && final(frame_buffer)@ == old(frame_buffer)@
            && *final(pc) == *old(pc),
        r is Ok ==> final(registers)@ == regs_after(opcode, old(registers)@)
            && final(frame_buffer)@ == fb_after(opcode, old(registers)@, old(memory)@, old(frame_buffer)@)
            && *final(pc) == *old(pc) + 2,
{
    match opcode {
        Opcode::CLS => {
            // Clear the display: nothing to do, the buffer starts cleared
            // and exactly one frame is ever drawn.
        },
        Opcode::LD6(register, Kk(value)) => registers.write(&register, value),
        Opcode::LDI(Nnn(value)) => registers.set_index(value),
        Opcode::ADD(x, Kk(kk)) => {
            let a = registers.read(&x);
            proof {
                lemma_wrap_add8(a, kk);
            }
            let result = a.wrapping_add(kk);
            registers.write(&x, result);
        },
        Opcode::DRW(x_register, y_register, N(height)) => {
            let outcome = draw(memory, registers, frame_buffer, x_register, y_register, height);
            if let Err(fault) = outcome {
                return Err(fault);
            }
        },
    }
    *pc = *pc + 2;
    Ok(())
}

/// Law: setting a register and then reading it back yields exactly the
/// value written, for every register index and every byte.
pub proof fn lemma_set_register_then_read(rv: RegistersView, r: u8, v: u8)
    requires
        r <= 0xf,
        rv.regs.len() == 16,
    ensures
        regs_after(Opcode::LD6(Register(r), Kk(v)), rv).regs[r as int] == v,
{
}

/// Law: writing `a` to a register and then adding the immediate `b` leaves
/// the register holding `(a + b) mod 256`; overflow wraps around.
pub proof fn lemma_add_immediate_wraps(rv: RegistersView, r: u8, a: u8, b: u8)
    requires
        r <= 0xf,
        rv.regs.len() == 16,
    ensures
        regs_after(
            Opcode::ADD(Register(r), Kk(b)),
            regs_after(Opcode::LD6(Register(r), Kk(a)), rv),
        ).regs[r as int] == (a + b) % 256,
{
}

/// Law: setting the index register and then reading it yields exactly the
/// address written, for every address the 12-bit field can carry.
pub proof fn lemma_set_index_then_read(rv: RegistersView, addr: u16)
    requires
        addr <= 0xfff,
    ensures
        regs_after(Opcode::LDI(Nnn(addr)), rv).i == addr,
{
}

/// Law: clearing never changes the buffer, so in particular a buffer that
/// has never been drawn to stays all-off; a previously drawn buffer is,
/// deliberately, not reset either.
pub proof fn lemma_clear_is_noop(rv: RegistersView, mem: Seq<u8>, fb: Seq<bool>)
    ensures
        fb_after(Opcode::CLS, rv, mem, fb) == fb,
        regs_after(Opcode::CLS, rv) == rv,
        exec_fault(Opcode::CLS, rv, mem) is None,
{
}

} // verus!
