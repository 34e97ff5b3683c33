use chip8::{decode, Chip8, Chip8Error, Instruction};

fn machine_with(rom: &[u8]) -> Chip8 {
    let mut c = Chip8::new();
    assert_eq!(c.LoadRom(rom), Ok(()));
    c
}

fn run(c: &mut Chip8, cycles: usize) {
    for _ in 0..cycles {
        assert!(c.step(0).is_ok());
    }
}

#[test]
fn new_machine_has_font_and_start_address() {
    let c = Chip8::new();
    assert_eq!(c.pc(), 0x200);
    assert_eq!(c.index(), 0);
    assert_eq!(c.stack_pointer(), 0);
    assert_eq!(c.memory_byte(0), 0xF0);
    assert_eq!(c.memory_byte(5), 0x20);
    assert_eq!(c.memory_byte(79), 0x80);
    assert_eq!(c.memory_byte(80), 0);
    for r in 0..16 {
        assert_eq!(c.register(r), 0);
        assert!(!c.key(r));
    }
    assert!(!c.pixel(0, 0));
}

#[test]
fn load_immediate() {
    let mut c = machine_with(&[0x6A, 0x05]);
    assert_eq!(c.step(0), Ok(Instruction::LoadImm { x: 0xA, kk: 5 }));
    assert_eq!(c.register(0xA), 5);
    assert_eq!(c.pc(), 0x202);
}

#[test]
fn add_sets_carry() {
    let mut c = machine_with(&[0x6A, 0xFF, 0x6B, 0x01, 0x8A, 0xB4]);
    run(&mut c, 3);
    assert_eq!(c.register(0xA), 0x00);
    assert_eq!(c.register(0xF), 1);
}

#[test]
fn add_without_carry_clears_flag() {
    let mut c = machine_with(&[0x6F, 0x07, 0x6A, 0x02, 0x6B, 0x03, 0x8A, 0xB4]);
    run(&mut c, 4);
    assert_eq!(c.register(0xA), 5);
    assert_eq!(c.register(0xF), 0);
}

#[test]
fn sub_borrows() {
    let mut c = machine_with(&[0x6A, 0x01, 0x6B, 0x02, 0x8A, 0xB5]);
    run(&mut c, 3);
    assert_eq!(c.register(0xA), 0xFF);
    assert_eq!(c.register(0xF), 0);
}

#[test]
fn sub_without_borrow_sets_flag() {
    let mut c = machine_with(&[0x6A, 0x09, 0x6B, 0x02, 0x8A, 0xB5]);
    run(&mut c, 3);
    assert_eq!(c.register(0xA), 7);
    assert_eq!(c.register(0xF), 1);
}

#[test]
fn reverse_sub() {
    let mut c = machine_with(&[0x6A, 0x02, 0x6B, 0x09, 0x8A, 0xB7]);
    run(&mut c, 3);
    assert_eq!(c.register(0xA), 7);
    assert_eq!(c.register(0xF), 1);
}

#[test]
fn shifts_report_the_bit_shifted_out() {
    let mut c = machine_with(&[0x6A, 0x81, 0x8A, 0x06]);
    run(&mut c, 2);
    assert_eq!(c.register(0xA), 0x40);
    assert_eq!(c.register(0xF), 1);
    let mut c = machine_with(&[0x6A, 0x81, 0x8A, 0x0E]);
    run(&mut c, 2);
    assert_eq!(c.register(0xA), 0x02);
    assert_eq!(c.register(0xF), 1);
}

#[test]
fn bitwise_and_add_immediate() {
    let mut c = machine_with(&[0x61, 0xF0, 0x62, 0x3C, 0x81, 0x22, 0x63, 0xFE, 0x73, 0x05]);
    run(&mut c, 5);
    assert_eq!(c.register(1), 0x30);
    assert_eq!(c.register(3), 0x03);
    assert_eq!(c.register(0xF), 0);
}

#[test]
fn bcd_digits() {
    let mut c = machine_with(&[0x6A, 234, 0xA3, 0x00, 0xFA, 0x33]);
    run(&mut c, 3);
    assert_eq!(c.memory_byte(0x300), 2);
    assert_eq!(c.memory_byte(0x301), 3);
    assert_eq!(c.memory_byte(0x302), 4);
}

#[test]
fn sprite_drawn_twice_collides_and_clears() {
    let rom = [0xA2, 0x0A, 0x60, 0x05, 0xD0, 0x11, 0xD0, 0x11, 0x12, 0x08, 0xF0];
    let mut c = machine_with(&rom);
    run(&mut c, 3);
    assert_eq!(c.register(0xF), 0);
    for x in 5..9 {
        assert!(c.pixel(x, 0));
    }
    assert!(!c.pixel(9, 0));
    run(&mut c, 1);
    assert_eq!(c.register(0xF), 1);
    for x in 0..64 {
        assert!(!c.pixel(x, 0));
    }
}

#[test]
fn sprite_wraps_around_the_edges() {
    // V0 = 62, V1 = 31: a two-row sprite of 0xFF wraps in both directions.
    let rom = [0xA2, 0x08, 0x60, 62, 0x61, 31, 0xD0, 0x12, 0xFF, 0xFF];
    let mut c = machine_with(&rom);
    run(&mut c, 4);
    assert!(c.pixel(62, 31));
    assert!(c.pixel(63, 31));
    assert!(c.pixel(0, 31));
    assert!(c.pixel(5, 31));
    assert!(!c.pixel(6, 31));
    assert!(c.pixel(62, 0));
    assert!(c.pixel(5, 0));
    assert!(!c.pixel(62, 1));
    assert_eq!(c.register(0xF), 0);
}

#[test]
fn clear_display() {
    let rom = [0xA2, 0x06, 0xD0, 0x11, 0x00, 0xE0, 0x80];
    let mut c = machine_with(&rom);
    run(&mut c, 2);
    assert!(c.pixel(0, 0));
    run(&mut c, 1);
    assert!(!c.pixel(0, 0));
}

#[test]
fn call_then_return() {
    let mut c = machine_with(&[0x22, 0x06, 0x00, 0x00, 0x00, 0x00, 0x00, 0xEE]);
    assert_eq!(c.step(0), Ok(Instruction::Call { addr: 0x206 }));
    assert_eq!(c.pc(), 0x206);
    assert_eq!(c.stack_pointer(), 1);
    assert_eq!(c.step(0), Ok(Instruction::Return));
    assert_eq!(c.pc(), 0x202);
    assert_eq!(c.stack_pointer(), 0);
}

#[test]
fn return_with_empty_stack_fails() {
    let mut c = machine_with(&[0x00, 0xEE]);
    assert_eq!(c.step(0), Err(Chip8Error::StackUnderflow));
    assert_eq!(c.pc(), 0x200);
    assert_eq!(c.stack_pointer(), 0);
}

#[test]
fn seventeenth_nested_call_fails() {
    let mut c = machine_with(&[0x22, 0x00]);
    for depth in 1..=16 {
        assert!(c.step(0).is_ok());
        assert_eq!(c.stack_pointer(), depth);
    }
    assert_eq!(c.step(0), Err(Chip8Error::StackOverflow));
    assert_eq!(c.stack_pointer(), 16);
    assert_eq!(c.pc(), 0x200);
}

#[test]
fn wait_for_key_repeats_until_pressed() {
    let mut c = machine_with(&[0xF3, 0x0A]);
    for _ in 0..3 {
        assert_eq!(c.step(0), Ok(Instruction::WaitKey { x: 3 }));
        assert_eq!(c.pc(), 0x200);
        assert_eq!(c.register(3), 0);
    }
    c.SetKey(9, true);
    c.SetKey(7, true);
    run(&mut c, 1);
    assert_eq!(c.register(3), 7);
    assert_eq!(c.pc(), 0x202);
}

#[test]
fn set_key_ignores_keys_off_the_pad() {
    let mut c = Chip8::new();
    c.SetKey(16, true);
    for k in 0..16 {
        assert!(!c.key(k));
    }
    c.SetKey(15, true);
    assert!(c.key(15));
    c.SetKey(15, false);
    assert!(!c.key(15));
}

#[test]
fn key_skips() {
    // V1 = 4; skip if key 4 down (it is), skip if key 4 up (it is not).
    let rom = [0x61, 0x04, 0xE1, 0x9E, 0x00, 0x00, 0xE1, 0xA1];
    let mut c = machine_with(&rom);
    c.SetKey(4, true);
    run(&mut c, 2);
    assert_eq!(c.pc(), 0x206);
    run(&mut c, 1);
    assert_eq!(c.pc(), 0x208);
}

#[test]
fn key_skip_with_register_off_the_pad() {
    let rom = [0x61, 0x20, 0xE1, 0x9E, 0x00, 0x00, 0xE1, 0xA1];
    let mut c = machine_with(&rom);
    run(&mut c, 2);
    assert_eq!(c.pc(), 0x204);
    let mut c = machine_with(&[0x61, 0x20, 0xE1, 0xA1]);
    run(&mut c, 2);
    assert_eq!(c.pc(), 0x206);
}

#[test]
fn conditional_skips() {
    let rom = [0x61, 0x05, 0x31, 0x05, 0x00, 0x00, 0x41, 0x05, 0x62, 0x05, 0x51, 0x20, 0x00, 0x00, 0x91, 0x20];
    let mut c = machine_with(&rom);
    run(&mut c, 2);
    assert_eq!(c.pc(), 0x206);
    run(&mut c, 1);
    assert_eq!(c.pc(), 0x208);
    run(&mut c, 2);
    assert_eq!(c.pc(), 0x20E);
    run(&mut c, 1);
    assert_eq!(c.pc(), 0x210);
}

#[test]
fn jumps() {
    let mut c = machine_with(&[0x13, 0x45]);
    run(&mut c, 1);
    assert_eq!(c.pc(), 0x345);
    let mut c = machine_with(&[0x60, 0x04, 0xB3, 0x00]);
    run(&mut c, 2);
    assert_eq!(c.pc(), 0x304);
}

#[test]
fn index_register_operations() {
    let rom = [0xAF, 0xFF, 0x62, 0x03, 0xF2, 0x1E, 0x63, 0x1A, 0xF3, 0x29];
    let mut c = machine_with(&rom);
    run(&mut c, 3);
    assert_eq!(c.index(), 0x1002);
    run(&mut c, 2);
    assert_eq!(c.index(), 50);
}

#[test]
fn register_dump_and_load() {
    let rom = [0x60, 0x11, 0x61, 0x22, 0x62, 0x33, 0xA3, 0x00, 0xF1, 0x55, 0x60, 0x00, 0x61, 0x00, 0xF1, 0x65];
    let mut c = machine_with(&rom);
    run(&mut c, 5);
    assert_eq!(c.memory_byte(0x300), 0x11);
    assert_eq!(c.memory_byte(0x301), 0x22);
    assert_eq!(c.memory_byte(0x302), 0x00);
    run(&mut c, 3);
    assert_eq!(c.register(0), 0x11);
    assert_eq!(c.register(1), 0x22);
    assert_eq!(c.register(2), 0x33);
}

#[test]
fn timers_are_set_read_and_ticked() {
    let rom = [0x65, 0x03, 0xF5, 0x15, 0xF5, 0x18, 0xF6, 0x07];
    let mut c = machine_with(&rom);
    run(&mut c, 3);
    assert_eq!(c.delay_timer(), 3);
    assert_eq!(c.sound_timer(), 3);
    c.tick_timers();
    run(&mut c, 1);
    assert_eq!(c.register(6), 2);
    for _ in 0..5 {
        c.tick_timers();
    }
    assert_eq!(c.delay_timer(), 0);
    assert_eq!(c.sound_timer(), 0);
}

#[test]
fn random_byte_is_masked() {
    let mut c = machine_with(&[0xC3, 0x0F]);
    run(&mut c, 1);
    assert_eq!(c.register(3), 0);
    let mut c = machine_with(&[0xC3, 0xF0]);
    assert!(c.step(0xAB).is_ok());
    assert_eq!(c.register(3), 0xA0);
    let mut c = machine_with(&[0xC3, 0x00]);
    assert!(c.cycle().is_ok());
    assert_eq!(c.register(3), 0);
    assert_eq!(c.pc(), 0x202);
}

#[test]
fn unknown_word_only_advances() {
    let mut c = machine_with(&[0x5A, 0xB1]);
    assert_eq!(c.step(0), Ok(Instruction::Unknown { opcode: 0x5AB1 }));
    assert_eq!(c.pc(), 0x202);
    for r in 0..16 {
        assert_eq!(c.register(r), 0);
    }
}

#[test]
fn add_leaves_other_registers_alone() {
    let mut rom = Vec::new();
    for r in 0..15u8 {
        rom.push(0x60 | r);
        rom.push(r + 1);
    }
    rom.extend_from_slice(&[0x8A, 0xB4]);
    let mut c = machine_with(&rom);
    run(&mut c, 16);
    assert_eq!(c.register(0xA), 11 + 12);
    assert_eq!(c.register(0xF), 0);
    for r in 0..15 {
        if r != 0xA {
            assert_eq!(c.register(r), r as u8 + 1);
        }
    }
}

#[test]
fn rom_size_limit() {
    let mut c = Chip8::new();
    assert_eq!(c.LoadRom(&vec![7u8; 3585]), Err(Chip8Error::RomTooLarge));
    assert_eq!(c.memory_byte(0x200), 0);
    assert_eq!(c.LoadRom(&vec![7u8; 3584]), Ok(()));
    assert_eq!(c.memory_byte(0x200), 7);
    assert_eq!(c.memory_byte(0xFFF), 7);
    assert_eq!(c.memory_byte(0x1FF), 0);
}

#[test]
fn decode_names_instructions() {
    assert_eq!(decode(0x00E0), Instruction::ClearDisplay);
    assert_eq!(decode(0x00EE), Instruction::Return);
    assert_eq!(decode(0x8AB4), Instruction::AddReg { x: 0xA, y: 0xB });
    assert_eq!(decode(0xD123), Instruction::Draw { x: 1, y: 2, n: 3 });
    assert_eq!(decode(0xF265), Instruction::LoadRegs { x: 2 });
    assert_eq!(decode(0x0123), Instruction::Unknown { opcode: 0x0123 });
    assert_eq!(decode(0x8AB8), Instruction::Unknown { opcode: 0x8AB8 });
    assert_eq!(decode(0xE1A2), Instruction::Unknown { opcode: 0xE1A2 });
}

#[test]
fn reset_display_clears_every_cell() {
    let mut c = machine_with(&[0xA2, 0x04, 0xD0, 0x11, 0xFF]);
    run(&mut c, 2);
    assert!(c.pixel(7, 0));
    c.ResetDisplay();
    for x in 0..64 {
        assert!(!c.pixel(x, 0));
    }
}
