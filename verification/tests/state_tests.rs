use chip8_core::frame::FrameBuffer;
use chip8_core::memory::Memory;
use chip8_core::opcode::Register;
use chip8_core::registers::Registers;
use chip8_core::{HEIGHT, MEMORY_LENGTH, PROGRAM_OFFSET, WIDTH};

#[test]
fn registers_start_zeroed() {
    let registers = Registers::new();
    for r in 0..16u8 {
        assert_eq!(registers.read(&Register(r)), 0);
    }
    assert_eq!(registers.index(), 0);
}

#[test]
fn register_read_returns_what_was_written() {
    let mut registers = Registers::new();
    for r in 0..16u8 {
        registers.write(&Register(r), r.wrapping_mul(17));
    }
    for r in 0..16u8 {
        assert_eq!(registers.read(&Register(r)), r.wrapping_mul(17));
    }
}

#[test]
fn index_register_returns_what_was_set() {
    let mut registers = Registers::new();
    registers.set_index(0x0fff);
    assert_eq!(registers.index(), 0x0fff);
    registers.set_index(0);
    assert_eq!(registers.index(), 0);
    registers.set_index(0x22a);
    assert_eq!(registers.index(), 0x22a);
}

#[test]
fn memory_starts_zeroed() {
    let memory = Memory::new();
    assert_eq!(memory.read(PROGRAM_OFFSET), 0);
    assert_eq!(memory.read(MEMORY_LENGTH as u16 - 1), 0);
}

#[test]
fn memory_read_returns_what_was_written() {
    let mut memory = Memory::new();
    memory.write(0x200, 0xab);
    memory.write(0xffe, 0x5c);
    assert_eq!(memory.read(0x200), 0xab);
    assert_eq!(memory.read(0xffe), 0x5c);
}

#[test]
fn memory_load_copies_an_image() {
    let mut memory = Memory::new();
    let image = [1u8, 2, 3, 4, 5];
    memory.load(PROGRAM_OFFSET, &image);
    for (offset, value) in image.iter().enumerate() {
        assert_eq!(memory.read(PROGRAM_OFFSET + offset as u16), *value);
    }
    assert_eq!(memory.read(PROGRAM_OFFSET + image.len() as u16), 0);
}

#[test]
fn frame_buffer_starts_all_off() {
    let frame_buffer = FrameBuffer::new();
    for y in 0..HEIGHT {
        for x in 0..WIDTH {
            assert!(!frame_buffer.get(x, y));
        }
    }
}

#[test]
fn frame_buffer_toggle_flips_one_cell() {
    let mut frame_buffer = FrameBuffer::new();
    frame_buffer.toggle(3 * WIDTH + 7);
    for y in 0..HEIGHT {
        for x in 0..WIDTH {
            assert_eq!(frame_buffer.get(x, y), x == 7 && y == 3);
        }
    }
    frame_buffer.toggle(3 * WIDTH + 7);
    assert!(!frame_buffer.get(7, 3));
}
