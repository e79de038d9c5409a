use chip8_core::frame::FrameBuffer;
use chip8_core::machine::{fetch, run, step, RunOutcome};
use chip8_core::memory::Memory;
use chip8_core::opcode::{Fault, Register};
use chip8_core::registers::Registers;
use chip8_core::{HEIGHT, PROGRAM_OFFSET, WIDTH};

#[test]
fn fetch_reads_most_significant_byte_first() {
    let mut memory = Memory::new();
    memory.write(0x200, 0xa2);
    memory.write(0x201, 0x2a);
    assert_eq!(fetch(&memory, 0x200), 0xa22a);
}

#[test]
fn step_executes_one_instruction() {
    let mut memory = Memory::new();
    let mut registers = Registers::new();
    let mut frame_buffer = FrameBuffer::new();
    let mut pc: u16 = PROGRAM_OFFSET;
    memory.write(0x200, 0x60);
    memory.write(0x201, 0x0c);
    assert_eq!(step(&mut memory, &mut registers, &mut frame_buffer, &mut pc), Ok(()));
    assert_eq!(registers.read(&Register(0)), 0x0c);
    assert_eq!(pc, 0x202);
}

#[test]
fn step_on_unrecognized_word_faults_without_touching_state() {
    let mut memory = Memory::new();
    let mut registers = Registers::new();
    let mut frame_buffer = FrameBuffer::new();
    let mut pc: u16 = PROGRAM_OFFSET;
    // The "return" word: starts like clear-screen, but unsupported.
    memory.write(0x200, 0x00);
    memory.write(0x201, 0xee);
    assert_eq!(
        step(&mut memory, &mut registers, &mut frame_buffer, &mut pc),
        Err(Fault::UnsupportedInstruction(0x00ee))
    );
    assert_eq!(pc, PROGRAM_OFFSET);
    for r in 0..16u8 {
        assert_eq!(registers.read(&Register(r)), 0);
    }
    assert_eq!(registers.index(), 0);
    for y in 0..HEIGHT {
        for x in 0..WIDTH {
            assert!(!frame_buffer.get(x, y));
        }
    }
}

#[test]
fn step_below_program_origin_faults() {
    let mut memory = Memory::new();
    let mut registers = Registers::new();
    let mut frame_buffer = FrameBuffer::new();
    let mut pc: u16 = 0x1fe;
    assert_eq!(
        step(&mut memory, &mut registers, &mut frame_buffer, &mut pc),
        Err(Fault::ReservedMemoryAccess(0x1fe))
    );
    assert_eq!(pc, 0x1fe);
}

#[test]
fn step_at_end_of_memory_faults() {
    let mut memory = Memory::new();
    let mut registers = Registers::new();
    let mut frame_buffer = FrameBuffer::new();
    let mut pc: u16 = 0xffe;
    assert_eq!(
        step(&mut memory, &mut registers, &mut frame_buffer, &mut pc),
        Err(Fault::MemoryOutOfRange)
    );
    assert_eq!(pc, 0xffe);
}

#[test]
fn run_stops_at_the_stop_address() {
    let mut memory = Memory::new();
    let mut registers = Registers::new();
    let mut frame_buffer = FrameBuffer::new();
    let mut pc: u16 = PROGRAM_OFFSET;
    // Three register sets in a row, then stop.
    let program = [0x60u8, 0x01, 0x61, 0x02, 0x62, 0x03];
    memory.load(PROGRAM_OFFSET, &program);
    let outcome = run(&mut memory, &mut registers, &mut frame_buffer, &mut pc, 0x206, 100);
    assert_eq!(outcome, RunOutcome::Stopped);
    assert_eq!(pc, 0x206);
    assert_eq!(registers.read(&Register(0)), 1);
    assert_eq!(registers.read(&Register(1)), 2);
    assert_eq!(registers.read(&Register(2)), 3);
}

#[test]
fn run_reports_an_exhausted_step_budget() {
    let mut memory = Memory::new();
    let mut registers = Registers::new();
    let mut frame_buffer = FrameBuffer::new();
    let mut pc: u16 = PROGRAM_OFFSET;
    let program = [0x60u8, 0x01, 0x61, 0x02, 0x62, 0x03];
    memory.load(PROGRAM_OFFSET, &program);
    let outcome = run(&mut memory, &mut registers, &mut frame_buffer, &mut pc, 0x206, 2);
    assert_eq!(outcome, RunOutcome::OutOfFuel);
    assert_eq!(pc, 0x204);
}

#[test]
fn run_reports_the_first_fault() {
    let mut memory = Memory::new();
    let mut registers = Registers::new();
    let mut frame_buffer = FrameBuffer::new();
    let mut pc: u16 = PROGRAM_OFFSET;
    // One register set, then the unsupported "return" word.
    let program = [0x60u8, 0x01, 0x00, 0xee];
    memory.load(PROGRAM_OFFSET, &program);
    let outcome = run(&mut memory, &mut registers, &mut frame_buffer, &mut pc, 0x999, 100);
    assert_eq!(outcome, RunOutcome::Faulted(Fault::UnsupportedInstruction(0x00ee)));
    assert_eq!(pc, 0x202);
    assert_eq!(registers.read(&Register(0)), 1);
}
