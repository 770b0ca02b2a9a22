use chip8::{Chip8, Chip8Error, Quirks};

const LATE: u64 = 1_000_000_000_000;

fn quirks() -> Quirks {
    Quirks { display_wait: false, ..Quirks::default() }
}

fn machine_with(program: &[u16], quirks: Quirks) -> Chip8 {
    let mut bytes = Vec::new();
    for op in program {
        bytes.push((op >> 8) as u8);
        bytes.push((op & 0xFF) as u8);
    }
    let mut m = Chip8::with_quirks(quirks);
    m.load_program(&bytes).unwrap();
    m
}

fn machine(program: &[u16]) -> Chip8 {
    machine_with(program, quirks())
}

fn run(m: &mut Chip8, steps: usize) {
    for _ in 0..steps {
        m.cycle_at(LATE, 0).unwrap();
    }
}

fn lit_pixels(m: &Chip8) -> usize {
    m.display.iter().map(|row| row.iter().filter(|p| **p).count()).sum()
}

#[test]
fn new_machine_starts_at_program_start_with_font() {
    let m = Chip8::new();
    assert_eq!(m.program_counter(), 0x200);
    assert_eq!(m.index_register(), 0);
    assert_eq!(m.stack_depth(), 0);
    assert_eq!(m.memory_byte(0x50), 0xf0);
    assert_eq!(m.memory_byte(0x55), 0x20);
    assert_eq!(m.memory_byte(0x9F), 0x80);
    assert_eq!(m.memory_byte(0xA0), 0);
    assert_eq!(m.memory_byte(0x200), 0);
    assert_eq!(m.quirks(), Quirks::default());
    assert!(Quirks::default().vf_reset);
    assert!(Quirks::default().display_wait);
    assert_eq!(lit_pixels(&m), 0);
}

#[test]
fn add_immediate_wraps_without_flag() {
    let mut m = machine(&[0x6F55, 0x63FF, 0x7302]);
    run(&mut m, 3);
    assert_eq!(m.register(3), 0x01);
    assert_eq!(m.register(0xF), 0x55);
}

#[test]
fn add_registers_sets_carry() {
    let mut m = machine(&[0x61FF, 0x6201, 0x8124, 0x6301, 0x6401, 0x8344]);
    run(&mut m, 3);
    assert_eq!(m.register(1), 0x00);
    assert_eq!(m.register(0xF), 1);
    run(&mut m, 3);
    assert_eq!(m.register(3), 0x02);
    assert_eq!(m.register(0xF), 0);
}

#[test]
fn subtract_sets_no_borrow_flag() {
    let mut m = machine(&[0x6105, 0x6203, 0x8125, 0x6303, 0x6405, 0x8345]);
    run(&mut m, 3);
    assert_eq!(m.register(1), 0x02);
    assert_eq!(m.register(0xF), 1);
    run(&mut m, 3);
    assert_eq!(m.register(3), 0xFE);
    assert_eq!(m.register(0xF), 0);
}

#[test]
fn reverse_subtract_and_logic() {
    let mut m = machine(&[0x6103, 0x6205, 0x8127, 0x6F07, 0x630C, 0x640A, 0x8341]);
    run(&mut m, 3);
    assert_eq!(m.register(1), 0x02);
    assert_eq!(m.register(0xF), 1);
    run(&mut m, 4);
    assert_eq!(m.register(3), 0x0E);
    assert_eq!(m.register(0xF), 0);
}

#[test]
fn logic_keeps_vf_without_reset_quirk() {
    let q = Quirks { vf_reset: false, ..quirks() };
    let mut m = machine_with(&[0x6F07, 0x630C, 0x640A, 0x8342, 0x8343], q);
    run(&mut m, 4);
    assert_eq!(m.register(3), 0x08);
    assert_eq!(m.register(0xF), 7);
    run(&mut m, 1);
    assert_eq!(m.register(3), 0x02);
}

#[test]
fn store_then_load_restores_registers() {
    let program = [
        0x6011, 0x6122, 0x6233, 0x6344, 0xA300, 0xF355, 0x6000, 0x6100, 0x6200, 0x6300,
        0xA300, 0xF365,
    ];
    let mut m = machine(&program);
    run(&mut m, 6);
    assert_eq!(m.memory_byte(0x300), 0x11);
    assert_eq!(m.memory_byte(0x303), 0x44);
    assert_eq!(m.index_register(), 0x304);
    run(&mut m, 6);
    assert_eq!(
        [m.register(0), m.register(1), m.register(2), m.register(3)],
        [0x11, 0x22, 0x33, 0x44]
    );
}

#[test]
fn store_without_increment_keeps_index() {
    let q = Quirks { store_load_increments_i: false, ..quirks() };
    let mut m = machine_with(&[0x6007, 0xA300, 0xF055], q);
    run(&mut m, 3);
    assert_eq!(m.index_register(), 0x300);
    assert_eq!(m.memory_byte(0x300), 7);
}

#[test]
fn clear_then_draw_shows_sprite_and_second_draw_erases() {
    // The font glyph for 0 at (2, 3).
    let mut m = machine(&[0x00E0, 0x6000, 0xF029, 0x6102, 0x6203, 0xD125, 0xD125]);
    run(&mut m, 6);
    assert_eq!(m.register(0xF), 0);
    assert_eq!(lit_pixels(&m), 14);
    assert!(m.display[3][2] && m.display[3][5] && !m.display[4][3]);
    run(&mut m, 1);
    assert_eq!(lit_pixels(&m), 0);
    assert_eq!(m.register(0xF), 1);
}

#[test]
fn draw_wraps_origin_and_clips_pixels() {
    // Glyph 0 at (66, 33) wraps to (2, 1); at (62, 30) it is clipped.
    let mut m = machine(&[0x6000, 0xF029, 0x6142, 0x6221, 0xD125, 0x00E0, 0x613E, 0x621E, 0xD125]);
    run(&mut m, 5);
    assert!(m.display[1][2]);
    assert_eq!(lit_pixels(&m), 14);
    run(&mut m, 4);
    assert!(m.display[30][62] && m.display[30][63] && m.display[31][62]);
    assert_eq!(lit_pixels(&m), 3);
}

#[test]
fn draw_sprite_reports_collision() {
    let mut m = Chip8::with_quirks(quirks());
    m.draw_sprite(vec![0xC0], 0, 0);
    assert!(m.display[0][0] && m.display[0][1]);
    assert_eq!(m.register(0xF), 0);
    m.draw_sprite(vec![0x40], 64, 32);
    assert!(m.display[0][0] && !m.display[0][1]);
    assert_eq!(m.register(0xF), 1);
}

#[test]
fn nested_calls_then_returns() {
    // 0x200: call 0x300; 0x300: call 0x400; 0x400: call 0x500; 0x500: three returns.
    let mut bytes = vec![0u8; 0x400];
    bytes[0x000] = 0x23;
    bytes[0x100] = 0x24;
    bytes[0x200] = 0x25;
    bytes[0x300] = 0x00;
    bytes[0x301] = 0xEE;
    let mut m = Chip8::with_quirks(quirks());
    m.load_program(&bytes).unwrap();
    run(&mut m, 3);
    assert_eq!(m.stack_depth(), 3);
    assert_eq!(m.program_counter(), 0x500);
    run(&mut m, 1);
    assert_eq!(m.program_counter(), 0x402);
    assert_eq!(m.stack_depth(), 2);
}

#[test]
fn return_past_first_call_is_fatal() {
    let mut m = machine(&[0x2204, 0x00EE, 0x00EE]);
    run(&mut m, 2);
    assert_eq!(m.program_counter(), 0x202);
    assert_eq!(m.stack_depth(), 0);
    assert_eq!(m.cycle_at(LATE, 0), Err(Chip8Error::StackUnderflow));
    assert_eq!(m.program_counter(), 0x202);
}

#[test]
fn unknown_instruction_is_fatal() {
    let mut m = machine(&[0x0123]);
    assert_eq!(m.cycle_at(LATE, 0), Err(Chip8Error::UnknownInstruction(0x0123)));
    assert_eq!(m.program_counter(), 0x200);
    let mut m = machine(&[0x8128]);
    assert_eq!(m.cycle_at(LATE, 0), Err(Chip8Error::UnknownInstruction(0x8128)));
    let mut m = machine(&[0xF0FF]);
    assert_eq!(m.cycle_at(LATE, 0), Err(Chip8Error::UnknownInstruction(0xF0FF)));
}

#[test]
fn program_too_large_is_refused() {
    let mut m = Chip8::new();
    assert_eq!(m.load_program(&vec![1u8; 4096 - 0x200 + 1]), Err(Chip8Error::ProgramTooLarge));
    assert_eq!(m.memory_byte(0x200), 0);
    assert_eq!(m.load_program(&vec![1u8; 4096 - 0x200]), Ok(()));
    assert_eq!(m.memory_byte(0xFFF), 1);
}

#[test]
fn timers_stop_at_zero() {
    let mut m = machine(&[0x6002, 0xF015, 0x6101, 0xF118]);
    run(&mut m, 4);
    assert_eq!((m.delay_timer, m.sound_timer), (2, 1));
    m.decrease_timers();
    assert_eq!((m.delay_timer, m.sound_timer), (1, 0));
    for _ in 0..5 {
        m.decrease_timers();
    }
    assert_eq!((m.delay_timer, m.sound_timer), (0, 0));
}

#[test]
fn delay_timer_is_readable() {
    let mut m = machine(&[0x6009, 0xF015, 0xF307]);
    run(&mut m, 3);
    assert_eq!(m.register(3), 9);
}

#[test]
fn shift_right_depends_on_quirk() {
    let program = [0x6104, 0x6203, 0x8126];
    let mut from_vx = machine_with(&program, Quirks { shift_use_vy: false, ..quirks() });
    let mut from_vy = machine_with(&program, Quirks { shift_use_vy: true, ..quirks() });
    run(&mut from_vx, 3);
    run(&mut from_vy, 3);
    assert_eq!((from_vx.register(1), from_vx.register(0xF)), (0x02, 0));
    assert_eq!((from_vy.register(1), from_vy.register(0xF)), (0x01, 1));
}

#[test]
fn shift_left_sets_high_bit_flag() {
    let mut m = machine(&[0x6181, 0x812E]);
    run(&mut m, 2);
    assert_eq!((m.register(1), m.register(0xF)), (0x02, 1));
}

#[test]
fn key_wait_retries_until_release() {
    let mut m = machine(&[0xF50A, 0x1202]);
    m.cycle_at(LATE, 0).unwrap();
    assert_eq!(m.program_counter(), 0x200);
    assert!(m.waiting_for_key);
    m.cycle_at(LATE, 0).unwrap();
    assert_eq!(m.program_counter(), 0x200);
    m.press_key(0xB);
    m.cycle_at(LATE, 0).unwrap();
    assert_eq!(m.program_counter(), 0x200);
    m.release_key(0xB);
    assert_eq!(m.last_key_pressed, Some(0xB));
    m.cycle_at(LATE, 0).unwrap();
    assert_eq!(m.program_counter(), 0x202);
    assert_eq!(m.register(5), 0xB);
    assert!(!m.waiting_for_key);
    assert_eq!(m.last_key_pressed, None);
}

#[test]
fn key_skips() {
    let mut m = machine(&[0x6007, 0xE09E, 0x6101, 0xE0A1, 0x6202, 0xE0A1, 0x6303, 0x6404]);
    m.press_key(7);
    run(&mut m, 2);
    assert_eq!(m.program_counter(), 0x206);
    assert_eq!(m.register(1), 0);
    run(&mut m, 2);
    assert_eq!(m.program_counter(), 0x20A);
    assert_eq!(m.register(2), 2);
    m.release_key(7);
    run(&mut m, 1);
    assert_eq!(m.program_counter(), 0x20E);
    assert_eq!(m.register(3), 0);
}

#[test]
fn conditional_skips() {
    let mut m = machine(&[0x6005, 0x3005, 0x6101, 0x4005, 0x6202, 0x5010, 0x9010, 0x6303]);
    run(&mut m, 6);
    assert_eq!(m.register(1), 0);
    assert_eq!(m.register(2), 2);
    assert_eq!(m.program_counter(), 0x210);
    assert_eq!(m.register(3), 0);
}

#[test]
fn jumps_and_index() {
    let mut m = machine(&[0x6004, 0xB300]);
    run(&mut m, 2);
    assert_eq!(m.program_counter(), 0x300);
    let mut m = machine_with(&[0x6004, 0xB300], Quirks { bnnn: true, ..quirks() });
    run(&mut m, 2);
    assert_eq!(m.program_counter(), 0x304);
    let mut m = machine(&[0x6305, 0xB310]);
    run(&mut m, 2);
    assert_eq!(m.program_counter(), 0x315);
    let mut m = machine(&[0x1208]);
    run(&mut m, 1);
    assert_eq!(m.program_counter(), 0x208);
    let mut m = machine(&[0xAFFE, 0x6010, 0xF01E]);
    run(&mut m, 3);
    assert_eq!(m.index_register(), 0x100E);
}

#[test]
fn font_address_and_decimal_digits() {
    let mut m = machine(&[0x600A, 0xF029, 0x61FE, 0xA400, 0xF133]);
    run(&mut m, 2);
    assert_eq!(m.index_register(), 0x50 + 50);
    run(&mut m, 3);
    assert_eq!([m.memory_byte(0x400), m.memory_byte(0x401), m.memory_byte(0x402)], [2, 5, 4]);
}

#[test]
fn random_byte_is_masked() {
    let mut m = machine(&[0xC30F, 0xC4F0]);
    m.cycle_at(LATE, 0xAB).unwrap();
    m.cycle_at(LATE, 0xAB).unwrap();
    assert_eq!(m.register(3), 0x0B);
    assert_eq!(m.register(4), 0xA0);
    let mut m = machine(&[0xC500]);
    m.cycle().unwrap();
    assert_eq!(m.register(5), 0);
    assert_eq!(m.program_counter(), 0x202);
}

#[test]
fn display_wait_retries_early_draws() {
    let mut m = machine_with(&[0xD005, 0xD005], Quirks::default());
    m.cycle_at(1_000, 0).unwrap();
    assert_eq!(m.program_counter(), 0x200);
    m.cycle_at(20_000_000, 0).unwrap();
    assert_eq!(m.program_counter(), 0x202);
    m.cycle_at(30_000_000, 0).unwrap();
    assert_eq!(m.program_counter(), 0x202);
    m.cycle_at(40_000_000, 0).unwrap();
    assert_eq!(m.program_counter(), 0x204);
}

#[test]
fn cycle_uses_the_clock() {
    let mut m = machine_with(&[0xD005], Quirks::default());
    let mut tries = 0u64;
    while m.program_counter() == 0x200 {
        m.cycle().unwrap();
        tries += 1;
        assert!(tries < 1_000_000_000);
    }
    assert_eq!(m.program_counter(), 0x202);
}

#[test]
fn getters_follow_public_state() {
    let mut m = machine(&[0x6003, 0xF015, 0xF018, 0x6000, 0xF029, 0xD005, 0xF10A]);
    run(&mut m, 6);
    assert_eq!((m.delay_timer(), m.sound_timer()), (3, 3));
    assert_eq!(m.delay_timer(), m.delay_timer);
    assert!(m.pixel(0, 0) && m.pixel(0, 3) && !m.pixel(1, 1));
    assert_eq!(m.pixel(4, 3), m.display[4][3]);
    m.press_key(2);
    assert!(m.key_pressed(2) && !m.key_pressed(3));
    run(&mut m, 1);
    assert!(m.waiting_for_key());
    m.press_key(9);
    m.release_key(9);
    assert_eq!(m.last_key_pressed(), Some(9));
}
