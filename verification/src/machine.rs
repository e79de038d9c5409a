//! The fetch/decode/execute driver: it reads two-byte instruction words at
//! the instruction pointer and applies them until a stop address is reached,
//! the step budget runs out, or a fault ends the run.

use vstd::prelude::*;

use crate::decode::decode;
use crate::decode::decoded;
use crate::decode::supported;
use crate::exec::exec_fault;
use crate::exec::execute;
use crate::exec::fb_after;
use crate::exec::regs_after;
use crate::frame::FrameBuffer;
use crate::memory::readable;
use crate::memory::Memory;
use crate::opcode::Fault;
use crate::registers::Registers;
use crate::registers::RegistersView;
use crate::MEMORY_LENGTH;
use crate::PROGRAM_OFFSET;

verus! {

/// The instruction word stored at `pc`: two bytes, most significant first.
pub open spec fn word_at(mem: Seq<u8>, pc: u16) -> u16 {
    ((mem[pc as int] as u16) << 8) | (mem[pc as int + 1] as u16)
}

/// Whether both bytes of the instruction word at `pc` may be read.
pub open spec fn fetch_ok(pc: u16) -> bool {
    readable(pc as int) && readable(pc as int + 1)
}

/// The fault a failing fetch raises: the pointer sits in the reserved
/// regions, or so close to the end of memory that the second byte is past
/// it.
pub open spec fn fetch_fault(pc: u16) -> Fault {
    if (pc as int) < PROGRAM_OFFSET as int {
        Fault::ReservedMemoryAccess(pc)
    } else {
        Fault::MemoryOutOfRange
    }
}

/// Read the two-byte instruction word at `pc`, most significant byte first.
pub fn fetch(memory: &Memory, pc: u16) -> (w: u16)
    requires
        fetch_ok(pc),
    ensures
        w == word_at(memory@, pc),
{
    (memory.read(pc) as u16) << 8 | memory.read(pc + 1) as u16
}

/// One step of the machine, as a function of the state alone: fetch the
/// word at `pc`, decode it, apply its effect, advance the pointer by two.
/// `Err` carries the fault that stopped the step; the state of a failed
/// step is unchanged.
pub open spec fn step_spec(mem: Seq<u8>, rv: RegistersView, fb: Seq<bool>, pc: u16) -> Result<
    (RegistersView, Seq<bool>, u16),
    Fault,
> {
    if !fetch_ok(pc) {
        Err(fetch_fault(pc))
    } else {
        let w = word_at(mem, pc);
        if !supported(w) {
            Err(Fault::UnsupportedInstruction(w))
        } else {
            let op = decoded(w);
            match exec_fault(op, rv, mem) {
                Some(f) => Err(f),
                None => Ok((regs_after(op, rv), fb_after(op, rv, mem, fb), (pc + 2) as u16)),
            }
        }
    }
}

/// Fetch, decode, and execute one instruction. On success the state moves
/// exactly as `step_spec` says; on a fault nothing changes and the fault is
/// reported. Memory is never written.
pub fn step(
    memory: &mut Memory,
    registers: &mut Registers,
    frame_buffer: &mut FrameBuffer,
    pc: &mut u16,
) -> (r: Result<(), Fault>)
    requires
        old(frame_buffer).wf(),
    ensures
        final(memory)@ == old(memory)@,
        final(frame_buffer).wf(),
        (match step_spec(old(memory)@, old(registers)@, old(frame_buffer)@, *old(pc)) {
            Ok((rv2, fb2, pc2)) => r is Ok && final(registers)@ == rv2
                && final(frame_buffer)@ == fb2 && *final(pc) == pc2,
            Err(f) => r == Err::<(), Fault>(f) && final(registers)@ == old(registers)@
                && final(frame_buffer)@ == old(frame_buffer)@ && *final(pc) == *old(pc),
        }),
{
    let p = *pc;
    if p < PROGRAM_OFFSET {
        return Err(Fault::ReservedMemoryAccess(p));
    }
    if p >= MEMORY_LENGTH as u16 - 1 {
        return Err(Fault::MemoryOutOfRange);
    }
    let instruction = fetch(memory, p);
    let opcode = match decode(instruction) {
        Ok(op) => op,
        Err(w) => {
            return Err(Fault::UnsupportedInstruction(w));
        },
    };
    execute(opcode, memory, registers, frame_buffer, pc)
}

/// Law: a fetch that yields an unrecognized instruction word ends the step
/// with a fault naming that word; the machine state is not touched, as the
/// unchanged-on-`Err` contract of `step` says. Unknown words never pass
/// silently.
pub proof fn lemma_unsupported_word_faults(mem: Seq<u8>, rv: RegistersView, fb: Seq<bool>, pc: u16)
    requires
        fetch_ok(pc),
        !supported(word_at(mem, pc)),
    ensures
        step_spec(mem, rv, fb, pc) == Err::<(RegistersView, Seq<bool>, u16), Fault>(
            Fault::UnsupportedInstruction(word_at(mem, pc)),
        ),
{
}

/// How a bounded run ended.
#[derive(Clone, Copy, Debug, PartialEq, Eq)]
pub enum RunOutcome {
    /// The instruction pointer reached the stop address.
    Stopped,
    /// The step budget ran out before the stop address was reached.
    OutOfFuel,
    /// A fetch, decode, or execute fault ended the run.
    Faulted(Fault),
}

/// A bounded run of the machine, as a function of the state alone: step
/// until the pointer equals `stop` right after a step, a step faults, or
/// `fuel` steps have been taken. The result carries the final state and how
/// the run ended; a faulting step leaves the state as it was before it.
pub open spec fn run_spec(
    mem: Seq<u8>,
    rv: RegistersView,
    fb: Seq<bool>,
    pc: u16,
    stop: u16,
    fuel: nat,
) -> (RegistersView, Seq<bool>, u16, RunOutcome)
    decreases fuel,
{
    if fuel == 0 {
        (rv, fb, pc, RunOutcome::OutOfFuel)
    } else {
        match step_spec(mem, rv, fb, pc) {
            Err(f) => (rv, fb, pc, RunOutcome::Faulted(f)),
            Ok((rv2, fb2, pc2)) => if pc2 == stop {
                (rv2, fb2, pc2, RunOutcome::Stopped)
            } else {
                run_spec(mem, rv2, fb2, pc2, stop, (fuel - 1) as nat)
            },
        }
    }
}

/// Run the machine until the instruction pointer reaches `stop`, a step
/// faults, or `fuel` steps have been taken, whichever comes first. The stop
/// condition is the host's affair: it is checked after each executed
/// instruction, so a run whose pointer already equals `stop` still takes a
/// step.
#[verifier::loop_isolation(false)]
pub fn run(
    memory: &mut Memory,
    registers: &mut Registers,
    frame_buffer: &mut FrameBuffer,
    pc: &mut u16,
    stop: u16,
    fuel: u64,
) -> (outcome: RunOutcome)
    requires
        old(frame_buffer).wf(),
    ensures
        final(memory)@ == old(memory)@,
        final(frame_buffer).wf(),
        ({
            let (rv2, fb2, pc2, o2) = run_spec(
                old(memory)@,
                old(registers)@,
                old(frame_buffer)@,
                *old(pc),
                stop,
                fuel as nat,
            );
            outcome == o2 && final(registers)@ == rv2 && final(frame_buffer)@ == fb2 && *final(pc)
                == pc2
        }),
{
    let ghost mem0 = memory@;
    let ghost rv0 = registers@;
    let ghost fb0 = frame_buffer@;
    let ghost pc0 = *pc;
    let mut remaining: u64 = fuel;
    loop
        invariant
            frame_buffer.wf(),
            memory@ == mem0,
            run_spec(mem0, rv0, fb0, pc0, stop, fuel as nat) == run_spec(
                memory@,
                registers@,
                frame_buffer@,
                *pc,
                stop,
                remaining as nat,
            ),
        decreases remaining,
    {
        if remaining == 0 {
            return RunOutcome::OutOfFuel;
        }
        match step(memory, registers, frame_buffer, pc) {
            Err(f) => {
                return RunOutcome::Faulted(f);
            },
            Ok(()) => {},
        }
        remaining = remaining - 1;
        if *pc == stop {
            return RunOutcome::Stopped;
        }
    }
}

} // verus!
