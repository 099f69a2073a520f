use chip8::display::{get_index, DISPLAY_SIZE, DISPLAY_WIDTH, PIXEL_OFF, PIXEL_ON};
use chip8::instruction::Instruction;
use chip8::machine::{Chip8, Fault, FONT_SET, KEY_NOT_PRESSED, KEY_PRESSED, MEMORY_SIZE};

fn run(rom: Vec<u8>, steps: usize) -> Chip8 {
    let mut chip = Chip8::new(rom);
    for _ in 0..steps {
        assert_eq!(chip.step_with_random(0), Ok(()));
    }
    chip
}

#[test]
fn add_register_without_carry() {
    let chip = run(vec![0x60, 0x10, 0x61, 0x20, 0x80, 0x14], 3);
    assert_eq!(chip.registers()[0], 0x30);
    assert_eq!(chip.registers()[0xF], 0);
}

#[test]
fn add_register_with_carry() {
    let chip = run(vec![0x60, 0xC8, 0x61, 0x64, 0x80, 0x14], 3);
    assert_eq!(chip.registers()[0], 0x2C);
    assert_eq!(chip.registers()[0xF], 1);
}

#[test]
fn sub_without_borrow() {
    let chip = run(vec![0x60, 0x07, 0x61, 0x05, 0x80, 0x15], 3);
    assert_eq!(chip.registers()[0], 2);
    assert_eq!(chip.registers()[0xF], 1);
}

#[test]
fn sub_with_borrow() {
    let chip = run(vec![0x60, 0x05, 0x61, 0x07, 0x80, 0x15], 3);
    assert_eq!(chip.registers()[0], 0xFE);
    assert_eq!(chip.registers()[0xF], 0);
}

#[test]
fn sub_equal_values_clear_flag() {
    let chip = run(vec![0x60, 0x05, 0x61, 0x05, 0x80, 0x15], 3);
    assert_eq!(chip.registers()[0], 0);
    assert_eq!(chip.registers()[0xF], 0);
}

#[test]
fn sub_from_reverses_operands() {
    let chip = run(vec![0x60, 0x05, 0x61, 0x07, 0x80, 0x17], 3);
    assert_eq!(chip.registers()[0], 2);
    assert_eq!(chip.registers()[0xF], 1);
}

#[test]
fn shift_right_odd_value_sets_flag() {
    let chip = run(vec![0x60, 0b0000_0011, 0x80, 0x06], 2);
    assert_eq!(chip.registers()[0], 0b0000_0001);
    assert_eq!(chip.registers()[0xF], 1);
}

#[test]
fn shift_right_even_value_clears_flag() {
    let chip = run(vec![0x60, 0b0000_0010, 0x80, 0x06], 2);
    assert_eq!(chip.registers()[0], 0b0000_0001);
    assert_eq!(chip.registers()[0xF], 0);
}

#[test]
fn shift_left_high_bit_sets_flag() {
    let chip = run(vec![0x60, 0b1000_0001, 0x80, 0x0E], 2);
    assert_eq!(chip.registers()[0], 0b0000_0010);
    assert_eq!(chip.registers()[0xF], 1);
}

#[test]
fn add_byte_wraps_and_keeps_flag() {
    let chip = run(vec![0x6F, 0x07, 0x60, 0xFF, 0x70, 0x02], 3);
    assert_eq!(chip.registers()[0], 1);
    assert_eq!(chip.registers()[0xF], 7);
}

#[test]
fn bitwise_operations() {
    let chip = run(
        vec![0x60, 0b1100, 0x61, 0b1010, 0x62, 0b1100, 0x63, 0b1100, 0x80, 0x11, 0x82, 0x12, 0x83, 0x13],
        7,
    );
    assert_eq!(chip.registers()[0], 0b1110);
    assert_eq!(chip.registers()[2], 0b1000);
    assert_eq!(chip.registers()[3], 0b0110);
}

#[test]
fn skips_advance_program_counter() {
    let taken = run(vec![0x60, 0x05, 0x30, 0x05], 2);
    assert_eq!(taken.program_counter(), 0x206);
    let not_taken = run(vec![0x60, 0x05, 0x30, 0x06], 2);
    assert_eq!(not_taken.program_counter(), 0x204);
    let not_equal = run(vec![0x60, 0x05, 0x61, 0x06, 0x90, 0x10], 3);
    assert_eq!(not_equal.program_counter(), 0x208);
}

#[test]
fn jump_call_and_return() {
    // 0x200: call 0x206; 0x202: jump 0x202; 0x204: (unused); 0x206: return
    let mut chip = run(vec![0x22, 0x06, 0x12, 0x02, 0x00, 0x00, 0x00, 0xEE], 1);
    assert_eq!(chip.program_counter(), 0x206);
    assert_eq!(chip.stack_pointer(), 1);
    assert_eq!(chip.step_with_random(0), Ok(()));
    assert_eq!(chip.program_counter(), 0x202);
    assert_eq!(chip.stack_pointer(), 0);
}

#[test]
fn jump_with_offset() {
    let chip = run(vec![0x60, 0x10, 0xB3, 0x00], 2);
    assert_eq!(chip.program_counter(), 0x310);
}

#[test]
fn random_is_masked() {
    let mut chip = Chip8::new(vec![0xC0, 0x0F]);
    assert_eq!(chip.step_with_random(0xAB), Ok(()));
    assert_eq!(chip.registers()[0], 0x0B);
    let mut zero_mask = Chip8::new(vec![0xC0, 0x00]);
    assert_eq!(zero_mask.step(), Ok(()));
    assert_eq!(zero_mask.registers()[0], 0);
}

#[test]
fn font_glyph_address() {
    let chip = run(vec![0x60, 0x0A, 0xF0, 0x29], 2);
    assert_eq!(chip.index(), 0x50 + 10 * 5);
}

#[test]
fn add_index() {
    let chip = run(vec![0x60, 0x10, 0xA1, 0x00, 0xF0, 0x1E], 3);
    assert_eq!(chip.index(), 0x110);
}

#[test]
fn bcd_of_seven() {
    let chip = run(vec![0x60, 7, 0xA3, 0x00, 0xF0, 0x33], 3);
    assert_eq!(&chip.memory()[0x300..0x303], &[0, 0, 7]);
}

#[test]
fn bcd_of_255() {
    let chip = run(vec![0x60, 255, 0xA3, 0x00, 0xF0, 0x33], 3);
    assert_eq!(&chip.memory()[0x300..0x303], &[2, 5, 5]);
}

#[test]
fn store_then_read_registers_round_trip() {
    let rom = vec![
        0x60, 0x11, 0x61, 0x22, 0x62, 0x33, 0x63, 0x44, 0x64, 0x55, // V0..V4
        0xA3, 0x00, 0xF3, 0x55, // store V0..V3 at 0x300
        0x60, 0x00, 0x61, 0x00, 0x62, 0x00, 0x63, 0x00, 0x64, 0x00, // zero
        0xF3, 0x65, // read V0..V3
    ];
    let chip = run(rom, 13);
    assert_eq!(&chip.registers()[0..5], &[0x11, 0x22, 0x33, 0x44, 0x00]);
    assert_eq!(&chip.memory()[0x300..0x305], &[0x11, 0x22, 0x33, 0x44, 0x00]);
    assert_eq!(chip.index(), 0x300);
}

#[test]
fn load_and_set_timers() {
    let chip = run(vec![0x60, 0x09, 0xF0, 0x15, 0xF0, 0x18, 0xF1, 0x07], 4);
    assert_eq!(chip.delay_timer(), 9);
    assert_eq!(chip.sound_timer(), 9);
    assert_eq!(chip.registers()[1], 9);
    assert!(chip.is_playing_sound());
}

#[test]
fn tick_counts_down_and_stops_at_zero() {
    let mut chip = run(vec![0x60, 0x02, 0xF0, 0x15, 0x61, 0x01, 0xF1, 0x18], 4);
    chip.tick();
    assert_eq!(chip.delay_timer(), 1);
    assert_eq!(chip.sound_timer(), 0);
    assert!(!chip.is_playing_sound());
    for _ in 0..5 {
        chip.tick();
    }
    assert_eq!(chip.delay_timer(), 0);
    assert_eq!(chip.sound_timer(), 0);
}

#[test]
fn tick_on_zero_timers_stays_zero() {
    let mut chip = Chip8::new(vec![]);
    chip.tick();
    chip.tick();
    assert_eq!(chip.delay_timer(), 0);
    assert_eq!(chip.sound_timer(), 0);
}

#[test]
fn wait_key_press_repeats_until_a_key_is_pressed() {
    let mut chip = Chip8::new(vec![0xF3, 0x0A]);
    for _ in 0..3 {
        assert_eq!(chip.step_with_random(0), Ok(()));
        assert_eq!(chip.program_counter(), 0x200);
    }
    let mut keys = [KEY_NOT_PRESSED; 16];
    keys[9] = KEY_PRESSED;
    keys[5] = KEY_PRESSED;
    chip.set_keypad(keys);
    assert_eq!(chip.step_with_random(0), Ok(()));
    assert_eq!(chip.program_counter(), 0x202);
    assert_eq!(chip.registers()[3], 5);
}

#[test]
fn key_skips_read_the_snapshot() {
    let mut chip = Chip8::new(vec![0x60, 0x04, 0xE0, 0x9E, 0x00, 0x00, 0xE0, 0xA1]);
    let mut keys = [KEY_NOT_PRESSED; 16];
    keys[4] = KEY_PRESSED;
    chip.set_keypad(keys);
    assert_eq!(chip.step_with_random(0), Ok(()));
    assert_eq!(chip.step_with_random(0), Ok(()));
    assert_eq!(chip.program_counter(), 0x206);
    assert_eq!(chip.step_with_random(0), Ok(()));
    assert_eq!(chip.program_counter(), 0x208);
}

#[test]
fn malformed_register_skip_is_a_decode_failure() {
    assert_eq!(Chip8::decode(0x5121), None);
    assert_eq!(Chip8::decode(0x5120), Some(Instruction::SkipNextIfEqualRegister(1, 2)));
    assert_eq!(Chip8::decode(0x9121), None);
    let mut chip = Chip8::new(vec![0x51, 0x21]);
    assert_eq!(chip.step_with_random(0), Err(Fault::InvalidOpcode(0x5121)));
    assert_eq!(chip.program_counter(), 0x200);
}

#[test]
fn decode_fields() {
    assert_eq!(Chip8::decode(0x00E0), Some(Instruction::Clear));
    assert_eq!(Chip8::decode(0x00EE), Some(Instruction::Return));
    assert_eq!(Chip8::decode(0x0123), None);
    assert_eq!(Chip8::decode(0x1ABC), Some(Instruction::Jump(0xABC)));
    assert_eq!(Chip8::decode(0x3A42), Some(Instruction::SkipNextIfEqualByte(0xA, 0x42)));
    assert_eq!(Chip8::decode(0x8AB4), Some(Instruction::AddRegister(0xA, 0xB)));
    assert_eq!(Chip8::decode(0x8AB8), None);
    assert_eq!(Chip8::decode(0xD12F), Some(Instruction::DisplaySprite(1, 2, 0xF)));
    assert_eq!(Chip8::decode(0xE19F), None);
    assert_eq!(Chip8::decode(0xF265), Some(Instruction::ReadRegisters(2)));
    assert_eq!(Chip8::decode(0xF266), None);
}

#[test]
fn return_with_empty_stack_is_underflow() {
    let mut chip = Chip8::new(vec![0x00, 0xEE]);
    assert_eq!(chip.step_with_random(0), Err(Fault::StackUnderflow));
    assert_eq!(chip.program_counter(), 0x200);
}

#[test]
fn deep_calls_overflow_the_stack() {
    let mut chip = Chip8::new(vec![0x22, 0x00]);
    for _ in 0..15 {
        assert_eq!(chip.step_with_random(0), Ok(()));
    }
    assert_eq!(chip.stack_pointer(), 15);
    assert_eq!(chip.step_with_random(0), Err(Fault::StackOverflow));
    assert_eq!(chip.stack_pointer(), 15);
}

#[test]
fn memory_access_past_the_end_is_a_fault() {
    let mut chip = run(vec![0x60, 0x07, 0xAF, 0xFD, 0xF0, 0x33], 2);
    let before = chip.memory();
    assert_eq!(chip.step_with_random(0), Err(Fault::MemoryOutOfRange));
    assert_eq!(chip.program_counter(), 0x204);
    assert_eq!(chip.memory(), before);
    let mut fetch = run(vec![0x1F, 0xFE], 1);
    assert_eq!(fetch.step_with_random(0), Err(Fault::MemoryOutOfRange));
}

#[test]
fn key_above_f_is_a_fault() {
    let mut chip = run(vec![0x60, 0x20, 0xE0, 0x9E], 1);
    assert_eq!(chip.step_with_random(0), Err(Fault::InvalidKey(0x20)));
}

#[test]
fn new_loads_font_and_program() {
    let chip = Chip8::new(vec![0x12, 0x34]);
    let memory = chip.memory();
    assert_eq!(&memory[0x50..0xA0], &FONT_SET[..]);
    assert_eq!(&memory[0x200..0x202], &[0x12, 0x34]);
    assert_eq!(memory[0x202], 0);
    assert_eq!(chip.program_counter(), 0x200);
    assert_eq!(chip.index(), 0);
    assert!(chip.get_display().iter().all(|p| *p == PIXEL_OFF));
}

#[test]
fn oversized_program_is_refused() {
    assert_eq!(Chip8::try_new(vec![0; MEMORY_SIZE - 0x200 + 1]).err(), Some(Fault::ImageTooLarge));
    assert!(Chip8::try_new(vec![0; MEMORY_SIZE - 0x200]).is_ok());
}

#[test]
fn grid_index() {
    assert_eq!(get_index(3, 2, DISPLAY_WIDTH), 131);
    assert_eq!(get_index(0, 0, 10), 0);
}

fn sprite_program(x: u8, draws: usize) -> Vec<u8> {
    // clear; I = 0x20E; V0 = x; V1 = 0; draw (once or twice); then sprite data 0xFF at 0x20E
    let mut rom = vec![0x00, 0xE0, 0xA2, 0x0E, 0x60, x, 0x61, 0x00, 0xD0, 0x11, 0xD0, 0x11, 0x12, 0x0C];
    if draws == 1 {
        rom[10] = 0x12;
        rom[11] = 0x0A;
    }
    rom.push(0xFF);
    rom
}

#[test]
fn draw_on_clear_display_lights_eight_pixels() {
    let chip = run(sprite_program(0, 1), 5);
    let display = chip.get_display();
    assert_eq!(display.len(), DISPLAY_SIZE);
    for p in 0..DISPLAY_SIZE {
        assert_eq!(display[p], if p < 8 { PIXEL_ON } else { PIXEL_OFF });
    }
    assert_eq!(chip.registers()[0xF], 0);
}

#[test]
fn draw_twice_erases_and_collides() {
    let chip = run(sprite_program(0, 2), 6);
    assert!(chip.get_display().iter().all(|p| *p == PIXEL_OFF));
    assert_eq!(chip.registers()[0xF], 1);
}

#[test]
fn draw_wraps_horizontally() {
    let chip = run(sprite_program(60, 1), 5);
    let display = chip.get_display();
    for p in 0..DISPLAY_SIZE {
        let lit = p < 4 || (60..64).contains(&p);
        assert_eq!(display[p], if lit { PIXEL_ON } else { PIXEL_OFF }, "pixel {}", p);
    }
}

#[test]
fn draw_wraps_vertically() {
    // V1 = 31, two-row sprite: row 0 lands on y = 31, row 1 wraps to y = 0
    let rom = vec![0xA2, 0x0A, 0x60, 0x00, 0x61, 31, 0xD0, 0x12, 0x12, 0x08, 0x80, 0x01];
    let chip = run(rom, 4);
    let display = chip.get_display();
    assert_eq!(display[31 * 64], PIXEL_ON);
    assert_eq!(display[7], PIXEL_ON);
    assert_eq!(display.iter().filter(|p| **p == PIXEL_ON).count(), 2);
}

#[test]
fn clear_turns_every_pixel_off() {
    let rom = vec![0xA2, 0x08, 0xD0, 0x11, 0x00, 0xE0, 0x12, 0x06, 0xAA];
    let mut chip = run(rom, 2);
    assert_eq!(chip.get_display().iter().filter(|p| **p == PIXEL_ON).count(), 4);
    assert_eq!(chip.step_with_random(0), Ok(()));
    assert!(chip.get_display().iter().all(|p| *p == PIXEL_OFF));
}

#[test]
fn sprite_past_end_of_memory_is_a_fault() {
    let mut chip = run(vec![0xAF, 0xFA, 0xD0, 0x16], 1);
    assert_eq!(chip.step_with_random(0), Err(Fault::MemoryOutOfRange));
    assert!(chip.get_display().iter().all(|p| *p == PIXEL_OFF));
}
