use chip8emulator::Chip8Emulator;

fn boot(program: Vec<u8>) -> Chip8Emulator {
    let mut emu = Chip8Emulator::new();
    emu.init(program).unwrap();
    emu
}

fn run_cycles(emu: &mut Chip8Emulator, n: usize) {
    for _ in 0..n {
        emu.emulate_cycle().unwrap();
    }
}

#[test]
fn load_immediate() {
    let mut emu = boot(vec![0x60, 0x0A]);
    run_cycles(&mut emu, 1);
    assert_eq!(emu.register(0), 10);
    assert_eq!(emu.program_counter(), 0x202);
}

#[test]
fn add_immediate_wraps_without_flag() {
    let mut emu = boot(vec![0x60, 0xFF, 0x70, 0x02]);
    run_cycles(&mut emu, 2);
    assert_eq!(emu.register(0), 1);
    assert_eq!(emu.register(15), 0);
}

#[test]
fn alu_assign_or_and_xor() {
    // V0 := 0x0F; V1 := 0x33; V2 := V1; V2 |= V0; V3 := V1; V3 &= V0;
    // V4 := V1; V4 ^= V0.
    let mut emu = boot(vec![
        0x60, 0x0F, 0x61, 0x33, 0x82, 0x10, 0x82, 0x01, 0x83, 0x10, 0x83, 0x02, 0x84, 0x10, 0x84,
        0x03,
    ]);
    run_cycles(&mut emu, 8);
    assert_eq!(emu.register(2), 0x3F);
    assert_eq!(emu.register(3), 0x03);
    assert_eq!(emu.register(4), 0x3C);
}

#[test]
fn add_registers_sets_carry_on_overflow() {
    let mut emu = boot(vec![0x60, 0xC8, 0x61, 0x64, 0x80, 0x14]);
    run_cycles(&mut emu, 3);
    // 200 + 100 = 300 = 44 mod 256, carry out.
    assert_eq!(emu.register(0), 44);
    assert_eq!(emu.register(15), 1);
}

#[test]
fn add_registers_clears_carry_without_overflow() {
    let mut emu = boot(vec![0x60, 0x32, 0x61, 0x3C, 0x80, 0x14]);
    run_cycles(&mut emu, 3);
    assert_eq!(emu.register(0), 110);
    assert_eq!(emu.register(15), 0);
}

#[test]
fn sub_registers_borrow_clears_flag() {
    let mut emu = boot(vec![0x60, 0x05, 0x61, 0x0A, 0x80, 0x15]);
    run_cycles(&mut emu, 3);
    // 5 - 10 borrows: result 251, VF = 0.
    assert_eq!(emu.register(0), 251);
    assert_eq!(emu.register(15), 0);
}

#[test]
fn sub_registers_no_borrow_sets_flag() {
    let mut emu = boot(vec![0x60, 0x0A, 0x61, 0x05, 0x80, 0x15]);
    run_cycles(&mut emu, 3);
    assert_eq!(emu.register(0), 5);
    assert_eq!(emu.register(15), 1);
}

#[test]
fn sub_reversed_registers() {
    // V0 := V1 - V0 with V0 = 5, V1 = 10: no borrow, result 5, VF = 1.
    let mut emu = boot(vec![0x60, 0x05, 0x61, 0x0A, 0x80, 0x17]);
    run_cycles(&mut emu, 3);
    assert_eq!(emu.register(0), 5);
    assert_eq!(emu.register(15), 1);
    // V0 := V1 - V0 with V0 = 10, V1 = 5: borrow, result 251, VF = 0.
    let mut emu = boot(vec![0x60, 0x0A, 0x61, 0x05, 0x80, 0x17]);
    run_cycles(&mut emu, 3);
    assert_eq!(emu.register(0), 251);
    assert_eq!(emu.register(15), 0);
}

#[test]
fn shift_right_keeps_low_bit() {
    let mut emu = boot(vec![0x60, 0x05, 0x80, 0x06]);
    run_cycles(&mut emu, 2);
    assert_eq!(emu.register(0), 2);
    assert_eq!(emu.register(15), 1);
}

#[test]
fn shift_left_keeps_high_bit() {
    let mut emu = boot(vec![0x60, 0x81, 0x80, 0x0E]);
    run_cycles(&mut emu, 2);
    assert_eq!(emu.register(0), 0x02);
    assert_eq!(emu.register(15), 1);
}

#[test]
fn jump_sets_pc() {
    let mut emu = boot(vec![0x12, 0x34]);
    run_cycles(&mut emu, 1);
    assert_eq!(emu.program_counter(), 0x234);
}

#[test]
fn jump_with_offset_adds_v0() {
    let mut emu = boot(vec![0x60, 0x04, 0xB3, 0x00]);
    run_cycles(&mut emu, 2);
    assert_eq!(emu.program_counter(), 0x304);
}

#[test]
fn call_then_return_resumes_after_call() {
    // 0x200: call 0x204; 0x202: (never reached before the return);
    // 0x204: return.
    let mut emu = boot(vec![0x22, 0x04, 0x00, 0x00, 0x00, 0xEE]);
    run_cycles(&mut emu, 1);
    assert_eq!(emu.program_counter(), 0x204);
    run_cycles(&mut emu, 1);
    assert_eq!(emu.program_counter(), 0x202);
}

#[test]
fn skip_if_equal_immediate() {
    let mut emu = boot(vec![0x60, 0x07, 0x30, 0x07]);
    run_cycles(&mut emu, 2);
    assert_eq!(emu.program_counter(), 0x206);
    let mut emu = boot(vec![0x60, 0x07, 0x30, 0x08]);
    run_cycles(&mut emu, 2);
    assert_eq!(emu.program_counter(), 0x204);
}

#[test]
fn skip_if_not_equal_immediate() {
    let mut emu = boot(vec![0x60, 0x07, 0x40, 0x08]);
    run_cycles(&mut emu, 2);
    assert_eq!(emu.program_counter(), 0x206);
    let mut emu = boot(vec![0x60, 0x07, 0x40, 0x07]);
    run_cycles(&mut emu, 2);
    assert_eq!(emu.program_counter(), 0x204);
}

#[test]
fn skip_if_registers_equal() {
    let mut emu = boot(vec![0x60, 0x07, 0x61, 0x07, 0x50, 0x10]);
    run_cycles(&mut emu, 3);
    assert_eq!(emu.program_counter(), 0x208);
    let mut emu = boot(vec![0x60, 0x07, 0x61, 0x08, 0x50, 0x10]);
    run_cycles(&mut emu, 3);
    assert_eq!(emu.program_counter(), 0x206);
}

#[test]
fn skip_if_registers_not_equal() {
    let mut emu = boot(vec![0x60, 0x07, 0x61, 0x08, 0x90, 0x10]);
    run_cycles(&mut emu, 3);
    assert_eq!(emu.program_counter(), 0x208);
    let mut emu = boot(vec![0x60, 0x07, 0x61, 0x07, 0x90, 0x10]);
    run_cycles(&mut emu, 3);
    assert_eq!(emu.program_counter(), 0x206);
}

#[test]
fn set_and_advance_index_register() {
    let mut emu = boot(vec![0xA1, 0x23, 0x60, 0x10, 0xF0, 0x1E]);
    run_cycles(&mut emu, 3);
    assert_eq!(emu.index_register(), 0x133);
}

#[test]
fn font_sprite_address() {
    // The sprite for digit A starts at 10 * 5 = 50, whose first row is 0xF0.
    let mut emu = boot(vec![0x60, 0x0A, 0xF0, 0x29]);
    run_cycles(&mut emu, 2);
    assert_eq!(emu.index_register(), 50);
    assert_eq!(emu.memory_at(50), 0xF0);
}

#[test]
fn binary_coded_decimal_digits() {
    let mut emu = boot(vec![0x60, 0xEA, 0xA3, 0x00, 0xF0, 0x33]);
    run_cycles(&mut emu, 3);
    // 234 = hundreds 2, tens 3, ones 4.
    assert_eq!(emu.memory_at(0x300), 2);
    assert_eq!(emu.memory_at(0x301), 3);
    assert_eq!(emu.memory_at(0x302), 4);
}

#[test]
fn store_then_load_registers_round_trip() {
    // Fill V0..V2, store them at 0x300, clobber them, load them back.
    let mut emu = boot(vec![
        0x60, 0x11, 0x61, 0x22, 0x62, 0x33, 0xA3, 0x00, 0xF2, 0x55, 0x60, 0x00, 0x61, 0x00, 0x62,
        0x00, 0xF2, 0x65,
    ]);
    run_cycles(&mut emu, 9);
    assert_eq!(emu.register(0), 0x11);
    assert_eq!(emu.register(1), 0x22);
    assert_eq!(emu.register(2), 0x33);
    assert_eq!(emu.memory_at(0x300), 0x11);
    assert_eq!(emu.memory_at(0x302), 0x33);
    assert_eq!(emu.index_register(), 0x300);
}

#[test]
fn draw_sets_pixels_and_draw_again_restores() {
    // Draw the font sprite for digit 0 (rows F0 90 90 90 F0) at (0, 0),
    // then draw it again: the first draw sees no collision, the second
    // collides and restores the blank screen.
    let mut emu = boot(vec![0xA0, 0x00, 0xD0, 0x15, 0xD0, 0x15]);
    run_cycles(&mut emu, 2);
    let fb = emu.get_color_array();
    assert_eq!(&fb[0..8], &[1, 1, 1, 1, 0, 0, 0, 0]);
    assert_eq!(&fb[64..72], &[1, 0, 0, 1, 0, 0, 0, 0]);
    assert_eq!(emu.register(15), 0);
    run_cycles(&mut emu, 1);
    let fb = emu.get_color_array();
    assert!(fb.iter().all(|&p| p == 0));
    assert_eq!(emu.register(15), 1);
}

#[test]
fn draw_wraps_around_screen_edges() {
    // Draw the digit-0 sprite at (62, 30): columns wrap to 0 and 1, rows
    // wrap to the top of the screen.
    let mut emu = boot(vec![0x60, 0x3E, 0x61, 0x1E, 0xA0, 0x00, 0xD0, 0x15]);
    run_cycles(&mut emu, 4);
    let fb = emu.get_color_array();
    assert_eq!(fb[30 * 64 + 62], 1);
    assert_eq!(fb[30 * 64 + 63], 1);
    assert_eq!(fb[30 * 64], 1);
    assert_eq!(fb[30 * 64 + 1], 1);
    assert_eq!(fb[30 * 64 + 2], 0);
    assert_eq!(fb[31 * 64 + 62], 1);
    assert_eq!(fb[62], 1);
    assert_eq!(emu.register(15), 0);
}

#[test]
fn clear_screen_blanks_framebuffer() {
    let mut emu = boot(vec![0xA0, 0x00, 0xD0, 0x15, 0x00, 0xE0]);
    run_cycles(&mut emu, 3);
    assert!(emu.get_color_array().iter().all(|&p| p == 0));
}

#[test]
fn random_with_zero_mask_is_zero() {
    let mut emu = boot(vec![0xC0, 0x00]);
    run_cycles(&mut emu, 1);
    assert_eq!(emu.register(0), 0);
    assert_eq!(emu.program_counter(), 0x202);
}

#[test]
fn random_with_full_mask_advances() {
    let mut emu = boot(vec![0xC0, 0xFF]);
    run_cycles(&mut emu, 1);
    assert_eq!(emu.program_counter(), 0x202);
}

#[test]
fn three_instruction_add_scenario() {
    // V0 := 10; V1 := 5; V0 += V1.
    let mut emu = boot(vec![0x60, 0x0A, 0x61, 0x05, 0x80, 0x14, 0x00, 0x00]);
    run_cycles(&mut emu, 3);
    assert_eq!(emu.register(0), 15);
    assert_eq!(emu.register(15), 0);
    assert_eq!(emu.program_counter(), 0x206);
}

#[test]
fn read_delay_timer_into_register() {
    let mut emu = boot(vec![0x60, 0x05, 0xF0, 0x15, 0xF1, 0x07]);
    run_cycles(&mut emu, 3);
    assert_eq!(emu.register(1), 5);
}
