use rust8::chip8::Chip8;
use rust8::error::Chip8Error;

fn machine(program: &[u8]) -> Chip8 {
    let mut m = Chip8::new();
    m.init();
    assert_eq!(m.load_rom(program), Ok(()));
    m
}

fn run(m: &mut Chip8, steps: usize) {
    for _ in 0..steps {
        assert_eq!(m.step(), Ok(()));
    }
}

#[test]
fn add_wraps_and_sets_carry() {
    let mut m = machine(&[0x60, 0xF0, 0x61, 0x20, 0x80, 0x14]);
    run(&mut m, 3);
    assert_eq!(m.register(0), 0x10);
    assert_eq!(m.register(15), 1);

    let mut m = machine(&[0x60, 0x7F, 0x61, 0x80, 0x80, 0x14]);
    run(&mut m, 3);
    assert_eq!(m.register(0), 0xFF);
    assert_eq!(m.register(15), 0);
}

#[test]
fn sub_sets_flag_without_borrow() {
    let mut m = machine(&[0x60, 0x05, 0x61, 0x03, 0x80, 0x15]);
    run(&mut m, 3);
    assert_eq!(m.register(0), 2);
    assert_eq!(m.register(15), 1);

    let mut m = machine(&[0x60, 0x03, 0x61, 0x05, 0x80, 0x15]);
    run(&mut m, 3);
    assert_eq!(m.register(0), 0xFE);
    assert_eq!(m.register(15), 0);

    let mut m = machine(&[0x60, 0x07, 0x61, 0x07, 0x80, 0x15]);
    run(&mut m, 3);
    assert_eq!(m.register(0), 0);
    assert_eq!(m.register(15), 1);
}

#[test]
fn reverse_sub_and_shifts() {
    // V0 = 3, V1 = 5, V0 = V1 - V0
    let mut m = machine(&[0x60, 0x03, 0x61, 0x05, 0x80, 0x17]);
    run(&mut m, 3);
    assert_eq!(m.register(0), 2);
    assert_eq!(m.register(15), 1);

    // V2 = 0x81, shift right then left
    let mut m = machine(&[0x62, 0x81, 0x82, 0x06, 0x82, 0x0E]);
    run(&mut m, 2);
    assert_eq!(m.register(2), 0x40);
    assert_eq!(m.register(15), 1);
    run(&mut m, 1);
    assert_eq!(m.register(2), 0x80);
    assert_eq!(m.register(15), 0);
}

#[test]
fn add_immediate_wraps_without_flag() {
    let mut m = machine(&[0x6F, 0x07, 0x63, 0xFF, 0x73, 0x02]);
    run(&mut m, 3);
    assert_eq!(m.register(3), 1);
    assert_eq!(m.register(15), 7);
}

#[test]
fn call_and_return_round_trip() {
    // 0x200: call 0x206; 0x202: V0 = 1; 0x204: jump 0x204; 0x206: return
    let mut m = machine(&[0x22, 0x06, 0x60, 0x01, 0x12, 0x04, 0x00, 0xEE]);
    run(&mut m, 1);
    assert_eq!(m.pc(), 0x206);
    assert_eq!(m.stack_depth(), 1);
    run(&mut m, 1);
    assert_eq!(m.pc(), 0x202);
    assert_eq!(m.stack_depth(), 0);
    run(&mut m, 1);
    assert_eq!(m.register(0), 1);
}

#[test]
fn return_on_empty_stack_underflows() {
    let mut m = machine(&[0x00, 0xEE]);
    assert_eq!(m.step(), Err(Chip8Error::StackUnderflow));
    assert_eq!(m.pc(), 0x200);
}

#[test]
fn seventeenth_call_overflows() {
    // 0x200 calls itself forever
    let mut m = machine(&[0x22, 0x00]);
    run(&mut m, 16);
    assert_eq!(m.stack_depth(), 16);
    assert_eq!(m.step(), Err(Chip8Error::StackOverflow));
    assert_eq!(m.stack_depth(), 16);
}

#[test]
fn unknown_instruction_leaves_pc() {
    let mut m = machine(&[0x01, 0x23, 0x60, 0x09]);
    assert_eq!(m.step(), Err(Chip8Error::UnknownInstruction(0x0123)));
    assert_eq!(m.pc(), 0x200);
    assert_eq!(m.skip_instruction(), Ok(()));
    run(&mut m, 1);
    assert_eq!(m.register(0), 9);

    let mut m = machine(&[0x80, 0x18]);
    assert_eq!(m.step(), Err(Chip8Error::UnknownInstruction(0x8018)));
    let mut m = machine(&[0xF0, 0x99]);
    assert_eq!(m.step(), Err(Chip8Error::UnknownInstruction(0xF099)));
}

#[test]
fn fetch_past_memory_is_out_of_bounds() {
    let mut m = machine(&[0x1F, 0xFF]);
    run(&mut m, 1);
    assert_eq!(m.pc(), 0xFFF);
    assert_eq!(m.step(), Err(Chip8Error::OutOfBounds));
    assert_eq!(m.skip_instruction(), Err(Chip8Error::OutOfBounds));
}

#[test]
fn clear_unsets_every_pixel() {
    // draw glyph 0 at (0, 0), then clear
    let mut m = machine(&[0x60, 0x00, 0xF0, 0x29, 0xD0, 0x05, 0x00, 0xE0]);
    run(&mut m, 3);
    assert!(m.get_vram(0, 0));
    m.reset_draw_flag();
    assert!(!m.is_draw_flag());
    run(&mut m, 1);
    for y in 0..32 {
        for x in 0..64 {
            assert!(!m.get_vram(x, y));
        }
    }
    assert!(m.is_draw_flag());
}

#[test]
fn drawing_twice_restores_and_collides() {
    // glyph 0 (F0 90 90 90 F0) drawn twice at (0, 0)
    let mut m = machine(&[0x60, 0x00, 0xF0, 0x29, 0xD0, 0x05, 0xD0, 0x05]);
    run(&mut m, 3);
    assert_eq!(m.register(15), 0);
    assert!(m.get_vram(0, 0));
    assert!(m.get_vram(3, 0));
    assert!(!m.get_vram(4, 0));
    assert!(m.get_vram(0, 1));
    assert!(!m.get_vram(1, 1));
    run(&mut m, 1);
    assert_eq!(m.register(15), 1);
    for y in 0..32 {
        for x in 0..64 {
            assert!(!m.get_vram(x, y));
        }
    }
}

#[test]
fn sprite_wraps_at_edges() {
    // V1 = 62, V2 = 31, glyph 0 drawn at (62, 31)
    let mut m = machine(&[0x61, 62, 0x62, 31, 0x60, 0x00, 0xF0, 0x29, 0xD1, 0x25]);
    run(&mut m, 5);
    assert!(m.get_vram(62, 31));
    assert!(m.get_vram(63, 31));
    assert!(m.get_vram(0, 31));
    assert!(m.get_vram(1, 31));
    assert!(m.get_vram(62, 0));
    assert!(!m.get_vram(63, 0));
    assert!(m.get_vram(1, 0));
    assert_eq!(m.register(15), 0);
}

#[test]
fn pixel_reads_clamp_to_edge() {
    let mut m = machine(&[0x61, 63, 0x62, 31, 0xA3, 0x00, 0xD1, 0x21]);
    m.step_with_random(0).unwrap();
    m.step_with_random(0).unwrap();
    m.step_with_random(0).unwrap();
    // memory at 0x300 is zero: the sprite row is empty
    m.step_with_random(0).unwrap();
    assert!(!m.get_vram(200, 100));

    // a one-row sprite 0x80 drawn at (63, 31)
    let mut m = machine(&[0x61, 63, 0x62, 31, 0xA2, 0x0A, 0xD1, 0x21, 0x12, 0x08, 0x80, 0x00]);
    run(&mut m, 4);
    assert!(m.get_vram(63, 31));
    assert!(m.get_vram(200, 100));
    assert!(m.get_vram(63, 500));
    assert!(!m.get_vram(62, 500));
}

#[test]
fn draw_past_memory_is_out_of_bounds() {
    let mut m = machine(&[0xAF, 0xFE, 0xD0, 0x03]);
    run(&mut m, 1);
    assert_eq!(m.step(), Err(Chip8Error::OutOfBounds));
    assert_eq!(m.pc(), 0x202);
}

#[test]
fn load_rom_bounds() {
    let mut m = Chip8::new();
    m.init();
    let too_long = vec![0xAB; 3585];
    assert_eq!(m.load_rom(&too_long), Err(Chip8Error::OutOfBounds));
    assert_eq!(m.memory_at(0x200), 0);

    let fits: Vec<u8> = (0..3584).map(|i| (i % 251) as u8).collect();
    assert_eq!(m.load_rom(&fits), Ok(()));
    for (i, b) in fits.iter().enumerate() {
        assert_eq!(m.memory_at(0x200 + i), *b);
    }
    assert_eq!(m.pc(), 0x200);
}

#[test]
fn font_glyph_a_at_fifty() {
    let mut m = machine(&[0x60, 0x0A, 0xF0, 0x29]);
    run(&mut m, 2);
    assert_eq!(m.index(), 50);
    let glyph: Vec<u8> = (0..5).map(|k| m.memory_at(50 + k)).collect();
    assert_eq!(glyph, vec![0xF0, 0x90, 0xF0, 0x90, 0x90]);
}

#[test]
fn init_writes_font_and_entry() {
    let mut m = Chip8::new();
    assert_eq!(m.pc(), 0);
    assert!(!m.is_draw_flag());
    m.init();
    assert_eq!(m.pc(), 0x200);
    assert!(m.is_draw_flag());
    assert_eq!(m.memory_at(0), 0xF0);
    assert_eq!(m.memory_at(5), 0x20);
    assert_eq!(m.memory_at(79), 0x80);
    assert_eq!(m.memory_at(80), 0);
}

#[test]
fn delay_timer_counts_down_to_zero() {
    // V0 = 5, delay = V0, then jumps in place
    let mut m = machine(&[0x60, 0x05, 0xF0, 0x15, 0x12, 0x04]);
    run(&mut m, 1);
    assert_eq!(m.delay_timer(), 0);
    // the step that sets the timer also ticks it once
    run(&mut m, 1);
    assert_eq!(m.delay_timer(), 4);
    for expected in [3u8, 2, 1, 0, 0, 0] {
        run(&mut m, 1);
        assert_eq!(m.delay_timer(), expected);
    }
}

#[test]
fn read_delay_timer_into_register() {
    let mut m = machine(&[0x60, 0x09, 0xF0, 0x15, 0xF3, 0x07]);
    run(&mut m, 3);
    assert_eq!(m.register(3), 8);
}

#[test]
fn sound_timer_signals_tone_once() {
    let mut m = machine(&[0x60, 0x02, 0xF0, 0x18, 0x12, 0x04]);
    run(&mut m, 2);
    assert_eq!(m.sound_timer(), 1);
    assert!(!m.is_tone());
    run(&mut m, 1);
    assert_eq!(m.sound_timer(), 0);
    assert!(m.is_tone());
    run(&mut m, 1);
    assert!(!m.is_tone());
}

#[test]
fn bcd_of_forty_two() {
    let mut m = machine(&[0xA3, 0x00, 0x63, 0x2A, 0xF3, 0x33]);
    run(&mut m, 3);
    assert_eq!(m.register(3), 42);
    assert_eq!(m.memory_at(0x300), 0);
    assert_eq!(m.memory_at(0x301), 4);
    assert_eq!(m.memory_at(0x302), 2);

    let mut m = machine(&[0xA3, 0x00, 0x63, 0xFE, 0xF3, 0x33]);
    run(&mut m, 3);
    assert_eq!(m.memory_at(0x300), 2);
    assert_eq!(m.memory_at(0x301), 5);
    assert_eq!(m.memory_at(0x302), 4);
}

#[test]
fn bcd_past_memory_is_out_of_bounds() {
    let mut m = machine(&[0xAF, 0xFE, 0xF3, 0x33]);
    run(&mut m, 1);
    assert_eq!(m.step(), Err(Chip8Error::OutOfBounds));
}

#[test]
fn register_block_store_and_load() {
    // V0 = 1, V1 = 2, V2 = 3, I = 0x300, store V0..=V2, I = 0x300, load V0..=V1 after clearing
    let mut m = machine(&[
        0x60, 0x01, 0x61, 0x02, 0x62, 0x03, 0xA3, 0x00, 0xF2, 0x55, 0x60, 0x00, 0x61, 0x00,
        0xA3, 0x01, 0xF1, 0x65,
    ]);
    run(&mut m, 5);
    assert_eq!(m.memory_at(0x300), 1);
    assert_eq!(m.memory_at(0x301), 2);
    assert_eq!(m.memory_at(0x302), 3);
    assert_eq!(m.memory_at(0x303), 0);
    assert_eq!(m.index(), 0x303);
    run(&mut m, 4);
    assert_eq!(m.register(0), 2);
    assert_eq!(m.register(1), 3);
    assert_eq!(m.index(), 0x303);
}

#[test]
fn index_add_sets_overflow_flag() {
    let mut m = machine(&[0xAF, 0xFE, 0x65, 0x03, 0xF5, 0x1E]);
    run(&mut m, 3);
    assert_eq!(m.index(), 0x1001);
    assert_eq!(m.register(15), 1);

    let mut m = machine(&[0xA1, 0x00, 0x65, 0x03, 0xF5, 0x1E]);
    run(&mut m, 3);
    assert_eq!(m.index(), 0x103);
    assert_eq!(m.register(15), 0);
}

#[test]
fn skips_on_register_compare() {
    // V0 = 7; 3007 skips; 4007 does not skip
    let mut m = machine(&[0x60, 0x07, 0x30, 0x07, 0x00, 0x00, 0x40, 0x07, 0x51, 0x20, 0x00, 0x00, 0x91, 0x20]);
    run(&mut m, 2);
    assert_eq!(m.pc(), 0x206);
    run(&mut m, 1);
    assert_eq!(m.pc(), 0x208);
    // V1 == V2 == 0: 5120 skips
    run(&mut m, 1);
    assert_eq!(m.pc(), 0x20C);
    // 9120 does not skip
    run(&mut m, 1);
    assert_eq!(m.pc(), 0x20E);
}

#[test]
fn jump_plus_v0() {
    let mut m = machine(&[0x60, 0x10, 0xB3, 0x00]);
    run(&mut m, 2);
    assert_eq!(m.pc(), 0x310);
}

#[test]
fn key_skips_follow_the_key_matrix() {
    let mut keys = [false; 16];
    keys[5] = true;
    // V0 = 5; E09E skips when key 5 is down; E0A1 skips when it is up
    let mut m = machine(&[0x60, 0x05, 0xE0, 0x9E, 0x00, 0x00, 0xE0, 0xA1, 0x00, 0x00]);
    m.update_keys(keys);
    run(&mut m, 2);
    assert_eq!(m.pc(), 0x206);
    run(&mut m, 1);
    assert_eq!(m.pc(), 0x208);

    let mut m = machine(&[0x60, 0x10, 0xE0, 0x9E]);
    run(&mut m, 1);
    assert_eq!(m.step(), Err(Chip8Error::OutOfBounds));
}

#[test]
fn key_wait_holds_until_pressed() {
    let mut m = machine(&[0xF4, 0x0A, 0x60, 0x01]);
    run(&mut m, 3);
    assert_eq!(m.pc(), 0x200);
    let mut keys = [false; 16];
    keys[3] = true;
    keys[7] = true;
    m.update_keys(keys);
    run(&mut m, 1);
    assert_eq!(m.register(4), 7);
    assert_eq!(m.pc(), 0x202);
}

#[test]
fn random_byte_is_masked() {
    let mut m = machine(&[0xC0, 0xFF, 0xC1, 0x0F, 0xC2, 0x0F]);
    assert_eq!(m.step_with_random(300), Ok(()));
    assert_eq!(m.register(0), 45);
    assert_eq!(m.step_with_random(0xFFFF_FFFF), Ok(()));
    assert_eq!(m.register(1), (0xFFFF_FFFFu32 % 255) as u8 & 0x0F);
    assert_eq!(m.step(), Ok(()));
    assert!(m.register(2) <= 0x0F);
}
