use chip8emulator::Chip8Emulator;

fn boot(program: Vec<u8>) -> Chip8Emulator {
    let mut emu = Chip8Emulator::new();
    emu.init(program).unwrap();
    emu
}

#[test]
fn power_on_state() {
    let emu = Chip8Emulator::new();
    assert_eq!(emu.program_counter(), 0x200);
    assert_eq!(emu.index_register(), 0);
    assert_eq!(emu.delay_timer(), 0);
    assert_eq!(emu.sound_timer(), 0);
    for r in 0..16 {
        assert_eq!(emu.register(r), 0);
    }
    // Font table seeded: digit 0 begins with 0xF0, the table ends at 79
    // with 0x80, and the byte after it is zero.
    assert_eq!(emu.memory_at(0), 0xF0);
    assert_eq!(emu.memory_at(79), 0x80);
    assert_eq!(emu.memory_at(80), 0x00);
    let fb = emu.get_color_array();
    assert_eq!(fb.len(), 64 * 32);
    assert!(fb.iter().all(|&p| p == 0));
}

#[test]
fn init_loads_program_and_resets() {
    let mut emu = boot(vec![0x60, 0x2A]);
    emu.emulate_cycle().unwrap();
    assert_eq!(emu.register(0), 0x2A);
    // A second load starts over: registers cleared, program replaced.
    emu.init(vec![0x12, 0x00]).unwrap();
    assert_eq!(emu.register(0), 0);
    assert_eq!(emu.program_counter(), 0x200);
    assert_eq!(emu.memory_at(0x200), 0x12);
    assert_eq!(emu.memory_at(0x202), 0x00);
}

#[test]
fn timers_count_down_to_zero_and_stop() {
    let mut emu = boot(vec![0x60, 0x02, 0xF0, 0x15, 0xF0, 0x18]);
    for _ in 0..3 {
        emu.emulate_cycle().unwrap();
    }
    assert_eq!(emu.delay_timer(), 2);
    assert_eq!(emu.sound_timer(), 2);
    emu.advance_timers();
    assert_eq!(emu.delay_timer(), 1);
    assert_eq!(emu.sound_timer(), 1);
    emu.advance_timers();
    emu.advance_timers();
    assert_eq!(emu.delay_timer(), 0);
    assert_eq!(emu.sound_timer(), 0);
}

#[test]
fn timers_do_not_move_with_instructions() {
    let mut emu = boot(vec![0x60, 0x05, 0xF0, 0x15, 0x61, 0x01, 0x62, 0x02]);
    for _ in 0..4 {
        emu.emulate_cycle().unwrap();
    }
    // Two instructions ran after the timer was set; the timer is the
    // host's to advance.
    assert_eq!(emu.delay_timer(), 5);
}

#[test]
fn skip_when_key_pressed() {
    let mut emu = boot(vec![0x60, 0x04, 0xE0, 0x9E]);
    emu.emulate_cycle().unwrap();
    emu.set_key(4, true);
    emu.emulate_cycle().unwrap();
    assert_eq!(emu.program_counter(), 0x206);
    let mut emu = boot(vec![0x60, 0x04, 0xE0, 0x9E]);
    emu.emulate_cycle().unwrap();
    emu.emulate_cycle().unwrap();
    assert_eq!(emu.program_counter(), 0x204);
}

#[test]
fn skip_when_key_released() {
    let mut emu = boot(vec![0x60, 0x04, 0xE0, 0xA1]);
    emu.emulate_cycle().unwrap();
    emu.emulate_cycle().unwrap();
    assert_eq!(emu.program_counter(), 0x206);
    let mut emu = boot(vec![0x60, 0x04, 0xE0, 0xA1]);
    emu.emulate_cycle().unwrap();
    emu.set_key(4, true);
    emu.emulate_cycle().unwrap();
    assert_eq!(emu.program_counter(), 0x204);
}

#[test]
fn key_wait_stands_still_until_a_key_arrives() {
    let mut emu = boot(vec![0xF0, 0x0A]);
    emu.emulate_cycle().unwrap();
    assert_eq!(emu.program_counter(), 0x200);
    emu.emulate_cycle().unwrap();
    assert_eq!(emu.program_counter(), 0x200);
    emu.set_key(7, true);
    emu.emulate_cycle().unwrap();
    assert_eq!(emu.register(0), 7);
    assert_eq!(emu.program_counter(), 0x202);
}

#[test]
fn key_wait_takes_lowest_pressed_key() {
    let mut emu = boot(vec![0xF0, 0x0A]);
    emu.set_key(9, true);
    emu.set_key(3, true);
    emu.emulate_cycle().unwrap();
    assert_eq!(emu.register(0), 3);
}

#[test]
fn key_release_is_observed() {
    let mut emu = boot(vec![0xF0, 0x0A]);
    emu.set_key(2, true);
    emu.set_key(2, false);
    emu.emulate_cycle().unwrap();
    assert_eq!(emu.program_counter(), 0x200);
}

#[test]
fn redraw_flag_consumed_exactly_once() {
    let mut emu = boot(vec![0x00, 0xE0, 0x61, 0x05]);
    assert!(!emu.consume_redraw_flag());
    emu.emulate_cycle().unwrap();
    assert!(emu.consume_redraw_flag());
    assert!(!emu.consume_redraw_flag());
    // An instruction that does not touch the framebuffer leaves the flag
    // down.
    emu.emulate_cycle().unwrap();
    assert!(!emu.consume_redraw_flag());
}

#[test]
fn resume_cycle_steps_past_one_instruction() {
    let mut emu = boot(vec![0xF0, 0x0A]);
    emu.resume_cycle();
    assert_eq!(emu.program_counter(), 0x202);
}

#[test]
fn framebuffer_copy_is_detached() {
    let mut emu = boot(vec![0xA0, 0x00, 0xD0, 0x15]);
    let before = emu.get_color_array();
    emu.emulate_cycle().unwrap();
    emu.emulate_cycle().unwrap();
    assert!(before.iter().all(|&p| p == 0));
    assert!(emu.get_color_array().iter().any(|&p| p == 1));
}
