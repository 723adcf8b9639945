use chip8::framebuffer::SCREEN_HEIGHT;
use chip8::framebuffer::SCREEN_WIDTH;
use chip8::machine::Chip8;
use chip8::machine::Chip8Error;
use chip8::machine::StepEvent;
use chip8::memory::font_data;

fn fresh() -> Chip8 {
    let mut m = Chip8::new();
    m.memory.load_fontset();
    m
}

#[test]
fn fetch_opcode_is_big_endian() {
    let mut m = fresh();
    m.memory.ram[0x200] = 0xAB;
    m.memory.ram[0x201] = 0xCD;
    assert_eq!(m.fetch_opcode(), 0xABCD);
}

#[test]
fn next_instruction_advances_by_two() {
    let mut m = fresh();
    m.next_instruction();
    assert_eq!(m.cpu.pc, 0x202);
}

#[test]
fn skip_helper_advances_by_four_or_two() {
    let mut m = fresh();
    m.skip_next_instruction_if(true);
    assert_eq!(m.cpu.pc, 0x204);
    m.skip_next_instruction_if(false);
    assert_eq!(m.cpu.pc, 0x206);
}

#[test]
fn add_overflow_sets_flag() {
    let mut m = fresh();
    m.cpu.v[0] = 0xFF;
    m.cpu.v[1] = 0x01;
    assert_eq!(m.execute_opcode(0x8014, 0), Ok(StepEvent::Executed));
    assert_eq!(m.cpu.v[0], 0x00);
    assert_eq!(m.cpu.v[15], 1);

    let mut m = fresh();
    m.cpu.v[0] = 0x01;
    m.cpu.v[1] = 0x01;
    assert_eq!(m.execute_opcode(0x8014, 0), Ok(StepEvent::Executed));
    assert_eq!(m.cpu.v[0], 0x02);
    assert_eq!(m.cpu.v[15], 0);
}

#[test]
fn sub_flag_reports_no_borrow() {
    let mut m = fresh();
    m.cpu.v[0] = 0x05;
    m.cpu.v[1] = 0x03;
    assert_eq!(m.execute_opcode(0x8015, 0), Ok(StepEvent::Executed));
    assert_eq!(m.cpu.v[0], 0x02);
    assert_eq!(m.cpu.v[15], 1);

    let mut m = fresh();
    m.cpu.v[0] = 0x03;
    m.cpu.v[1] = 0x05;
    assert_eq!(m.execute_opcode(0x8015, 0), Ok(StepEvent::Executed));
    assert_eq!(m.cpu.v[0], 0xFE);
    assert_eq!(m.cpu.v[15], 0);
}

#[test]
fn sub_neg_flag_reports_no_borrow() {
    let mut m = fresh();
    m.cpu.v[0] = 0x03;
    m.cpu.v[1] = 0x05;
    assert_eq!(m.execute_opcode(0x8017, 0), Ok(StepEvent::Executed));
    assert_eq!(m.cpu.v[0], 0x02);
    assert_eq!(m.cpu.v[15], 1);
}

#[test]
fn clear_screen_turns_every_pixel_off() {
    let mut m = fresh();
    // Draw the glyph for 0 somewhere first so the screen is not trivially
    // blank.
    m.cpu.i = 0x50;
    m.cpu.v[0] = 3;
    m.cpu.v[1] = 4;
    assert_eq!(m.execute_opcode(0xD015, 0), Ok(StepEvent::Executed));
    assert!(m.framebuffer.pixel_at(3, 4));
    assert_eq!(m.execute_opcode(0x00E0, 0), Ok(StepEvent::Executed));
    for x in 0..SCREEN_WIDTH {
        for y in 0..SCREEN_HEIGHT {
            assert!(!m.framebuffer.pixel_at(x, y));
        }
    }
}

#[test]
fn draw_twice_collides_and_restores() {
    let mut m = fresh();
    m.cpu.i = 0x50;
    m.cpu.v[0] = 10;
    m.cpu.v[1] = 5;
    assert_eq!(m.execute_opcode(0xD015, 0), Ok(StepEvent::Executed));
    assert_eq!(m.cpu.v[15], 0, "first draw on a blank screen cannot collide");
    assert_eq!(m.execute_opcode(0xD015, 0), Ok(StepEvent::Executed));
    assert_eq!(m.cpu.v[15], 1, "second identical draw must collide");
    for x in 0..SCREEN_WIDTH {
        for y in 0..SCREEN_HEIGHT {
            assert!(!m.framebuffer.pixel_at(x, y), "pixels must be restored");
        }
    }
}

#[test]
fn draw_wraps_around_the_edges() {
    let mut m = fresh();
    // One row of eight set bits drawn at the right edge and bottom row.
    m.memory.ram[0x300] = 0xFF;
    m.cpu.i = 0x300;
    m.cpu.v[0] = 62;
    m.cpu.v[1] = 31;
    assert_eq!(m.execute_opcode(0xD011, 0), Ok(StepEvent::Executed));
    assert!(m.framebuffer.pixel_at(62, 31));
    assert!(m.framebuffer.pixel_at(63, 31));
    assert!(m.framebuffer.pixel_at(0, 31));
    assert!(m.framebuffer.pixel_at(5, 31));
    assert!(!m.framebuffer.pixel_at(6, 31));
    assert!(!m.framebuffer.pixel_at(62, 0));
}

#[test]
fn call_then_return_restores_pc() {
    let mut m = fresh();
    m.memory.ram[0x200] = 0x23; // CALL 0x300
    m.memory.ram[0x201] = 0x00;
    m.memory.ram[0x300] = 0x00; // RET
    m.memory.ram[0x301] = 0xEE;
    assert_eq!(m.execute_cycle(0), Ok(StepEvent::Executed));
    assert_eq!(m.cpu.pc, 0x300);
    assert_eq!(m.cpu.sp, 1);
    assert_eq!(m.memory.stack[0], 0x202);
    assert_eq!(m.execute_cycle(0), Ok(StepEvent::Executed));
    assert_eq!(m.cpu.pc, 0x202);
    assert_eq!(m.cpu.sp, 0);
}

#[test]
fn bcd_store_writes_decimal_digits() {
    for (value, digits) in [(123u8, [1u8, 2, 3]), (0, [0, 0, 0]), (255, [2, 5, 5])] {
        let mut m = fresh();
        m.cpu.v[3] = value;
        m.cpu.i = 0x400;
        assert_eq!(m.execute_opcode(0xF333, 0), Ok(StepEvent::Executed));
        assert_eq!(m.memory.ram[0x400], digits[0]);
        assert_eq!(m.memory.ram[0x401], digits[1]);
        assert_eq!(m.memory.ram[0x402], digits[2]);
    }
}

#[test]
fn timers_saturate_at_zero() {
    let mut m = fresh();
    for _ in 0..10 {
        m.tick_timers();
        assert_eq!(m.cpu.dt, 0);
        assert_eq!(m.cpu.st, 0);
    }
    m.cpu.dt = 3;
    m.cpu.st = 2;
    for _ in 0..10 {
        m.tick_timers();
    }
    assert_eq!(m.cpu.dt, 0);
    assert_eq!(m.cpu.st, 0);
}

#[test]
fn wait_key_blocks_until_a_key_is_pressed() {
    let mut m = fresh();
    m.memory.ram[0x200] = 0xF5; // LD V5, K
    m.memory.ram[0x201] = 0x0A;
    for _ in 0..5 {
        assert_eq!(m.execute_cycle(0), Ok(StepEvent::AwaitingKey));
        assert_eq!(m.cpu.pc, 0x200, "the program counter must not move");
    }
    m.keypad.set_key(7, true);
    assert_eq!(m.execute_cycle(0), Ok(StepEvent::Executed));
    assert_eq!(m.cpu.pc, 0x202);
    assert_eq!(m.cpu.v[5], 7);
}

#[test]
fn jump_with_offset_adds_register_zero() {
    let mut m = fresh();
    m.cpu.v[0] = 0x05;
    assert_eq!(m.execute_opcode(0xB300, 0), Ok(StepEvent::Executed));
    assert_eq!(m.cpu.pc, 0x305);
}

#[test]
fn jump_sets_pc_directly() {
    let mut m = fresh();
    assert_eq!(m.execute_opcode(0x1ABC, 0), Ok(StepEvent::Executed));
    assert_eq!(m.cpu.pc, 0xABC);
}

#[test]
fn call_with_full_stack_overflows() {
    let mut m = fresh();
    m.cpu.sp = 16;
    assert_eq!(m.execute_opcode(0x2300, 0), Err(Chip8Error::StackOverflow));
    assert_eq!(m.cpu.pc, 0x200, "a fatal error changes nothing");
    assert_eq!(m.cpu.sp, 16);
}

#[test]
fn return_with_empty_stack_underflows() {
    let mut m = fresh();
    assert_eq!(m.execute_opcode(0x00EE, 0), Err(Chip8Error::StackUnderflow));
    assert_eq!(m.cpu.pc, 0x200);
}

#[test]
fn sixteen_nested_calls_fit_and_one_more_fails() {
    let mut m = fresh();
    for _ in 0..16 {
        assert_eq!(m.execute_opcode(0x2300, 0), Ok(StepEvent::Executed));
    }
    assert_eq!(m.cpu.sp, 16);
    assert_eq!(m.execute_opcode(0x2300, 0), Err(Chip8Error::StackOverflow));
}

#[test]
fn register_dump_past_memory_end_fails() {
    let mut m = fresh();
    m.cpu.i = 4094;
    assert_eq!(m.execute_opcode(0xF355, 0), Err(Chip8Error::AddressOutOfRange));
    assert_eq!(m.cpu.pc, 0x200);
}

#[test]
fn draw_past_memory_end_fails() {
    let mut m = fresh();
    m.cpu.i = 4090;
    assert_eq!(m.execute_opcode(0xD00F, 0), Err(Chip8Error::AddressOutOfRange));
}

#[test]
fn cycle_with_pc_out_of_range_fails() {
    let mut m = fresh();
    m.cpu.pc = 4095;
    assert_eq!(m.execute_cycle(0), Err(Chip8Error::AddressOutOfRange));
    assert_eq!(m.cpu.pc, 4095);
}

#[test]
fn unknown_opcode_is_reported_and_skipped() {
    let mut m = fresh();
    assert_eq!(m.execute_opcode(0x5121, 0), Ok(StepEvent::UnknownOpcode));
    assert_eq!(m.cpu.pc, 0x202);
    assert_eq!(m.execute_opcode(0x0123, 0), Ok(StepEvent::UnknownOpcode));
    assert_eq!(m.cpu.pc, 0x204);
}

#[test]
fn load_and_add_immediate() {
    let mut m = fresh();
    assert_eq!(m.execute_opcode(0x6A42, 0), Ok(StepEvent::Executed));
    assert_eq!(m.cpu.v[10], 0x42);
    assert_eq!(m.execute_opcode(0x7A02, 0), Ok(StepEvent::Executed));
    assert_eq!(m.cpu.v[10], 0x44);
    // The immediate add wraps and never touches the flag register.
    m.cpu.v[10] = 0xF0;
    m.cpu.v[15] = 9;
    assert_eq!(m.execute_opcode(0x7A20, 0), Ok(StepEvent::Executed));
    assert_eq!(m.cpu.v[10], 0x10);
    assert_eq!(m.cpu.v[15], 9);
}

#[test]
fn move_or_and_xor() {
    let mut m = fresh();
    m.cpu.v[1] = 0b1100;
    m.cpu.v[2] = 0b1010;
    assert_eq!(m.execute_opcode(0x8121, 0), Ok(StepEvent::Executed));
    assert_eq!(m.cpu.v[1], 0b1110);
    m.cpu.v[1] = 0b1100;
    assert_eq!(m.execute_opcode(0x8122, 0), Ok(StepEvent::Executed));
    assert_eq!(m.cpu.v[1], 0b1000);
    m.cpu.v[1] = 0b1100;
    assert_eq!(m.execute_opcode(0x8123, 0), Ok(StepEvent::Executed));
    assert_eq!(m.cpu.v[1], 0b0110);
    assert_eq!(m.execute_opcode(0x8120, 0), Ok(StepEvent::Executed));
    assert_eq!(m.cpu.v[1], 0b1010);
}

#[test]
fn shifts_report_the_bit_shifted_out() {
    let mut m = fresh();
    m.cpu.v[4] = 0x93;
    assert_eq!(m.execute_opcode(0x8406, 0), Ok(StepEvent::Executed));
    assert_eq!(m.cpu.v[4], 0x49);
    assert_eq!(m.cpu.v[15], 1);
    m.cpu.v[4] = 0x93;
    assert_eq!(m.execute_opcode(0x840E, 0), Ok(StepEvent::Executed));
    assert_eq!(m.cpu.v[4], 0x26);
    assert_eq!(m.cpu.v[15], 1);
    m.cpu.v[4] = 0x42;
    assert_eq!(m.execute_opcode(0x8406, 0), Ok(StepEvent::Executed));
    assert_eq!(m.cpu.v[4], 0x21);
    assert_eq!(m.cpu.v[15], 0);
}

#[test]
fn skips_compare_correctly() {
    let mut m = fresh();
    m.cpu.v[5] = 0x12;
    assert_eq!(m.execute_opcode(0x3512, 0), Ok(StepEvent::Executed));
    assert_eq!(m.cpu.pc, 0x204, "equal immediate skips");
    assert_eq!(m.execute_opcode(0x3511, 0), Ok(StepEvent::Executed));
    assert_eq!(m.cpu.pc, 0x206, "unequal immediate advances");
    assert_eq!(m.execute_opcode(0x4511, 0), Ok(StepEvent::Executed));
    assert_eq!(m.cpu.pc, 0x20A, "unequal immediate skips for skip-if-not-equal");
    m.cpu.v[6] = 0x12;
    assert_eq!(m.execute_opcode(0x5560, 0), Ok(StepEvent::Executed));
    assert!(m.cpu.pc == 0x20A + 4, "equal registers skip");
    assert_eq!(m.execute_opcode(0x9560, 0), Ok(StepEvent::Executed));
    assert!(m.cpu.pc == 0x20A + 6, "equal registers advance for skip-if-not-equal");
}

#[test]
fn key_skips_test_the_low_nibble() {
    let mut m = fresh();
    m.keypad.set_key(3, true);
    m.cpu.v[1] = 0x13; // low nibble selects key 3
    assert_eq!(m.execute_opcode(0xE19E, 0), Ok(StepEvent::Executed));
    assert_eq!(m.cpu.pc, 0x204, "pressed key skips");
    assert_eq!(m.execute_opcode(0xE1A1, 0), Ok(StepEvent::Executed));
    assert_eq!(m.cpu.pc, 0x206, "pressed key does not skip the not-pressed test");
    m.keypad.set_key(3, false);
    assert_eq!(m.execute_opcode(0xE1A1, 0), Ok(StepEvent::Executed));
    assert_eq!(m.cpu.pc, 0x20A);
}

#[test]
fn timer_instructions_copy_values() {
    let mut m = fresh();
    m.cpu.v[2] = 42;
    assert_eq!(m.execute_opcode(0xF215, 0), Ok(StepEvent::Executed));
    assert_eq!(m.cpu.dt, 42);
    assert_eq!(m.execute_opcode(0xF218, 0), Ok(StepEvent::Executed));
    assert_eq!(m.cpu.st, 42);
    m.cpu.dt = 17;
    assert_eq!(m.execute_opcode(0xF307, 0), Ok(StepEvent::Executed));
    assert_eq!(m.cpu.v[3], 17);
}

#[test]
fn index_register_instructions() {
    let mut m = fresh();
    assert_eq!(m.execute_opcode(0xA123, 0), Ok(StepEvent::Executed));
    assert_eq!(m.cpu.i, 0x123);
    m.cpu.v[0] = 2;
    assert_eq!(m.execute_opcode(0xF01E, 0), Ok(StepEvent::Executed));
    assert_eq!(m.cpu.i, 0x125);
    // The 16-bit add wraps around.
    m.cpu.i = 0xFFFF;
    assert_eq!(m.execute_opcode(0xF01E, 0), Ok(StepEvent::Executed));
    assert_eq!(m.cpu.i, 1);
}

#[test]
fn glyph_address_uses_low_nibble() {
    let mut m = fresh();
    m.cpu.v[2] = 0x2A; // glyph A
    assert_eq!(m.execute_opcode(0xF229, 0), Ok(StepEvent::Executed));
    assert_eq!(m.cpu.i, 0x50 + 5 * 0xA);
    // The glyph set itself was written at 0x50.
    assert_eq!(m.memory.ram[0x50], 0xF0);
    assert_eq!(font_data()[0], 0xF0);
}

#[test]
fn random_is_masked() {
    let mut m = fresh();
    assert_eq!(m.execute_opcode(0xC50F, 0xAB), Ok(StepEvent::Executed));
    assert_eq!(m.cpu.v[5], 0x0B);
    assert_eq!(m.execute_opcode(0xC600, 0xFF), Ok(StepEvent::Executed));
    assert_eq!(m.cpu.v[6], 0x00);
}

#[test]
fn register_dump_and_load_round_trip() {
    let mut m = fresh();
    for k in 0..5u8 {
        m.cpu.v[k as usize] = 10 + k;
    }
    m.cpu.v[5] = 99;
    m.cpu.i = 0x300;
    assert_eq!(m.execute_opcode(0xF455, 0), Ok(StepEvent::Executed));
    for k in 0..5usize {
        assert_eq!(m.memory.ram[0x300 + k], 10 + k as u8);
    }
    assert_eq!(m.memory.ram[0x305], 0, "bytes past the dumped range stay");
    for k in 0..5usize {
        m.cpu.v[k] = 0;
    }
    assert_eq!(m.execute_opcode(0xF465, 0), Ok(StepEvent::Executed));
    for k in 0..5usize {
        assert_eq!(m.cpu.v[k], 10 + k as u8);
    }
    assert_eq!(m.cpu.v[5], 99, "registers past the loaded range stay");
}

#[test]
fn load_rom_copies_bytes_and_checks_size() {
    let mut m = fresh();
    let image = vec![0xAAu8, 0xBB, 0xCC];
    assert_eq!(m.memory.load_rom(&image), Ok(()));
    assert_eq!(m.memory.ram[0x200], 0xAA);
    assert_eq!(m.memory.ram[0x201], 0xBB);
    assert_eq!(m.memory.ram[0x202], 0xCC);
    assert_eq!(m.memory.ram[0x203], 0);

    let exact = vec![7u8; 4096 - 0x200];
    let mut m = fresh();
    assert_eq!(m.memory.load_rom(&exact), Ok(()));
    assert_eq!(m.memory.ram[4095], 7);

    let oversized = vec![7u8; 4096 - 0x200 + 1];
    let mut m = fresh();
    assert_eq!(m.memory.load_rom(&oversized), Err(Chip8Error::LoadError));
    assert_eq!(m.memory.ram[0x200], 0, "a refused image writes nothing");
}

#[test]
fn keypad_reports_lowest_pressed_key() {
    let mut m = fresh();
    assert_eq!(m.keypad.any_pressed(), None);
    m.keypad.set_key(9, true);
    m.keypad.set_key(3, true);
    assert_eq!(m.keypad.any_pressed(), Some(3));
    assert!(m.keypad.is_pressed(9));
    assert!(!m.keypad.is_pressed(0));
}

#[test]
fn memory_read_write_word() {
    let mut m = fresh();
    m.memory.write_byte(0x700, 0x12);
    m.memory.write_byte(0x701, 0x34);
    assert_eq!(m.memory.read_word(0x700), 0x1234);
    assert_eq!(m.memory.read_byte(0x700), 0x12);
}
