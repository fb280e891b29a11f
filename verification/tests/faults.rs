use chip8emulator::{Chip8Emulator, Fault};

fn boot(program: Vec<u8>) -> Chip8Emulator {
    let mut emu = Chip8Emulator::new();
    emu.init(program).unwrap();
    emu
}

#[test]
fn unknown_opcode_reports_and_leaves_pc() {
    let mut emu = boot(vec![0xF0, 0xFF]);
    assert_eq!(emu.emulate_cycle(), Err(Fault::UnknownOpcode));
    assert_eq!(emu.program_counter(), 0x200);
}

#[test]
fn unknown_system_opcode_reports() {
    // The historical 0nnn machine-code call matches no table entry.
    let mut emu = boot(vec![0x01, 0x23]);
    assert_eq!(emu.emulate_cycle(), Err(Fault::UnknownOpcode));
    assert_eq!(emu.program_counter(), 0x200);
}

#[test]
fn unknown_alu_sub_opcode_reports() {
    let mut emu = boot(vec![0x80, 0x18]);
    assert_eq!(emu.emulate_cycle(), Err(Fault::UnknownOpcode));
}

#[test]
fn skip_patterns_with_nonzero_low_nibble_report() {
    let mut emu = boot(vec![0x50, 0x11]);
    assert_eq!(emu.emulate_cycle(), Err(Fault::UnknownOpcode));
    let mut emu = boot(vec![0x90, 0x12]);
    assert_eq!(emu.emulate_cycle(), Err(Fault::UnknownOpcode));
}

#[test]
fn stack_overflow_on_seventeenth_call() {
    // A subroutine that calls itself: each call pushes 0x200 again.
    let mut emu = boot(vec![0x22, 0x00]);
    for _ in 0..16 {
        assert_eq!(emu.emulate_cycle(), Ok(()));
        assert_eq!(emu.program_counter(), 0x200);
    }
    assert_eq!(emu.emulate_cycle(), Err(Fault::StackOverflow));
    assert_eq!(emu.program_counter(), 0x200);
}

#[test]
fn stack_underflow_on_return_without_call() {
    let mut emu = boot(vec![0x00, 0xEE]);
    assert_eq!(emu.emulate_cycle(), Err(Fault::StackUnderflow));
    assert_eq!(emu.program_counter(), 0x200);
}

#[test]
fn fetch_at_end_of_memory_is_out_of_bounds() {
    let mut emu = boot(vec![0x1F, 0xFF]);
    assert_eq!(emu.emulate_cycle(), Ok(()));
    assert_eq!(emu.program_counter(), 0xFFF);
    assert_eq!(emu.emulate_cycle(), Err(Fault::MemoryOutOfBounds));
    assert_eq!(emu.program_counter(), 0xFFF);
}

#[test]
fn draw_past_end_of_memory_is_out_of_bounds() {
    let mut emu = boot(vec![0xAF, 0xFF, 0xD0, 0x02]);
    assert_eq!(emu.emulate_cycle(), Ok(()));
    assert_eq!(emu.emulate_cycle(), Err(Fault::MemoryOutOfBounds));
    assert!(emu.get_color_array().iter().all(|&p| p == 0));
}

#[test]
fn store_block_past_end_of_memory_is_out_of_bounds() {
    let mut emu = boot(vec![0xAF, 0xFF, 0xF1, 0x55]);
    assert_eq!(emu.emulate_cycle(), Ok(()));
    assert_eq!(emu.emulate_cycle(), Err(Fault::MemoryOutOfBounds));
}

#[test]
fn load_block_past_end_of_memory_is_out_of_bounds() {
    let mut emu = boot(vec![0xAF, 0xFF, 0xF1, 0x65]);
    assert_eq!(emu.emulate_cycle(), Ok(()));
    assert_eq!(emu.emulate_cycle(), Err(Fault::MemoryOutOfBounds));
}

#[test]
fn decimal_conversion_past_end_of_memory_is_out_of_bounds() {
    let mut emu = boot(vec![0xAF, 0xFE, 0xF0, 0x33]);
    assert_eq!(emu.emulate_cycle(), Ok(()));
    assert_eq!(emu.emulate_cycle(), Err(Fault::MemoryOutOfBounds));
}

#[test]
fn key_test_with_register_beyond_pad_reports() {
    let mut emu = boot(vec![0x60, 0x10, 0xE0, 0x9E]);
    assert_eq!(emu.emulate_cycle(), Ok(()));
    assert_eq!(emu.emulate_cycle(), Err(Fault::KeyOutOfRange));
    let mut emu = boot(vec![0x60, 0x10, 0xE0, 0xA1]);
    assert_eq!(emu.emulate_cycle(), Ok(()));
    assert_eq!(emu.emulate_cycle(), Err(Fault::KeyOutOfRange));
}

#[test]
fn oversized_program_is_rejected() {
    let mut emu = Chip8Emulator::new();
    assert_eq!(emu.init(vec![0; 3585]), Err(Fault::ProgramTooLarge));
    assert_eq!(emu.init(vec![0; 3584]), Ok(()));
}
