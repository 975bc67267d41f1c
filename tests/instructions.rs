use chip8::{Chip8, KeyWait};

const NO_KEYS: [bool; 16] = [false; 16];

fn run_with(program: &[u8], cycles: usize, keys: [bool; 16]) -> Chip8 {
    let mut cpu = Chip8::new();
    cpu.load_into_memory(program);
    for _ in 0..cycles {
        cpu.tick_with_random(keys, 0).unwrap();
    }
    cpu
}

fn run(program: &[u8], cycles: usize) -> Chip8 {
    run_with(program, cycles, NO_KEYS)
}

#[test]
fn new_machine_is_zeroed_with_glyphs() {
    let cpu = Chip8::new();
    assert_eq!(cpu.pc(), 0x200);
    assert_eq!(cpu.sp(), 0);
    assert_eq!(cpu.i_reg(), 0);
    assert_eq!(cpu.key_wait(), KeyWait::Running);
    for k in 0..16 {
        assert_eq!(cpu.v_register(k), 0);
    }
    assert_eq!(cpu.memory_byte(0), 0xF0);
    assert_eq!(cpu.memory_byte(5), 0x20);
    assert_eq!(cpu.memory_byte(79), 0x80);
    assert_eq!(cpu.memory_byte(80), 0);
    assert_eq!(cpu.memory_byte(0x200), 0);
}

#[test]
fn load_truncates_at_end_of_memory() {
    let image: Vec<u8> = (0..4000u32).map(|k| (k % 251) as u8 + 1).collect();
    let mut cpu = Chip8::new();
    cpu.load_into_memory(&image);
    assert_eq!(cpu.memory_byte(0x200), image[0]);
    assert_eq!(cpu.memory_byte(0xFFF), image[0xDFF]);
    assert_eq!(cpu.memory_byte(0x4F), 0x80);
}

#[test]
fn jump_sets_counter() {
    let cpu = run(&[0x12, 0x34], 1);
    assert_eq!(cpu.pc(), 0x234);
}

#[test]
fn jump_with_offset_adds_v0_and_wraps() {
    let cpu = run(&[0x60, 0x10, 0xB3, 0x00], 2);
    assert_eq!(cpu.pc(), 0x310);
    let cpu = run(&[0x60, 0xFF, 0xBF, 0xFF], 2);
    assert_eq!(cpu.pc(), 0x0FE);
}

#[test]
fn skip_if_not_equal_to_byte() {
    let cpu = run(&[0x62, 0x05, 0x42, 0x05], 2);
    assert_eq!(cpu.pc(), 0x204);
    let cpu = run(&[0x62, 0x05, 0x42, 0x06], 2);
    assert_eq!(cpu.pc(), 0x206);
}

#[test]
fn skip_on_register_comparisons() {
    let cpu = run(&[0x60, 0x07, 0x61, 0x07, 0x50, 0x10], 3);
    assert_eq!(cpu.pc(), 0x208);
    let cpu = run(&[0x60, 0x07, 0x61, 0x07, 0x90, 0x10], 3);
    assert_eq!(cpu.pc(), 0x206);
    let cpu = run(&[0x60, 0x07, 0x61, 0x08, 0x90, 0x10], 3);
    assert_eq!(cpu.pc(), 0x208);
}

#[test]
fn register_logic_operations() {
    let base = [0x60, 0x0C, 0x61, 0x0A];
    let cases = [(0x10u8, 0x0Au8), (0x11, 0x0E), (0x12, 0x08), (0x13, 0x06)];
    for (low, expected) in cases {
        let mut program = base.to_vec();
        program.extend_from_slice(&[0x80, low]);
        let cpu = run(&program, 3);
        assert_eq!(cpu.v_register(0), expected);
    }
}

#[test]
fn shifts_capture_the_lost_bit() {
    let cpu = run(&[0x60, 0x05, 0x80, 0x06], 2);
    assert_eq!(cpu.v_register(0), 0x02);
    assert_eq!(cpu.v_register(0xF), 1);
    let cpu = run(&[0x60, 0x81, 0x80, 0x0E], 2);
    assert_eq!(cpu.v_register(0), 0x02);
    assert_eq!(cpu.v_register(0xF), 1);
    let cpu = run(&[0x60, 0x40, 0x80, 0x0E], 2);
    assert_eq!(cpu.v_register(0), 0x80);
    assert_eq!(cpu.v_register(0xF), 0);
}

#[test]
fn index_register_instructions() {
    let cpu = run(&[0xA1, 0x23], 1);
    assert_eq!(cpu.i_reg(), 0x123);
    let cpu = run(&[0xAF, 0xFF, 0x60, 0x02, 0xF0, 0x1E], 3);
    assert_eq!(cpu.i_reg(), 0x1001);
    let cpu = run(&[0x60, 0x0A, 0xF0, 0x29], 2);
    assert_eq!(cpu.i_reg(), 50);
}

#[test]
fn random_byte_is_masked() {
    let mut cpu = Chip8::new();
    cpu.load_into_memory(&[0xC0, 0x0F]);
    cpu.tick_with_random(NO_KEYS, 0xAB).unwrap();
    assert_eq!(cpu.v_register(0), 0x0B);
}

#[test]
fn random_with_zero_mask_is_zero() {
    let mut cpu = Chip8::new();
    cpu.load_into_memory(&[0x60, 0x55, 0xC0, 0x00]);
    assert_eq!(cpu.tick(NO_KEYS), Ok(false));
    assert_eq!(cpu.tick(NO_KEYS), Ok(false));
    assert_eq!(cpu.v_register(0), 0);
    assert_eq!(cpu.pc(), 0x204);
}

#[test]
fn key_skips() {
    let mut keys = NO_KEYS;
    keys[7] = true;
    let cpu = run_with(&[0x60, 0x07, 0xE0, 0x9E], 2, keys);
    assert_eq!(cpu.pc(), 0x206);
    let cpu = run_with(&[0x60, 0x07, 0xE0, 0x9E], 2, NO_KEYS);
    assert_eq!(cpu.pc(), 0x204);
    let cpu = run_with(&[0x60, 0x07, 0xE0, 0xA1], 2, keys);
    assert_eq!(cpu.pc(), 0x204);
    let cpu = run_with(&[0x60, 0x07, 0xE0, 0xA1], 2, NO_KEYS);
    assert_eq!(cpu.pc(), 0x206);
}

#[test]
fn key_beyond_keypad_is_never_pressed() {
    let keys = [true; 16];
    let cpu = run_with(&[0x60, 0x20, 0xE0, 0xA1], 2, keys);
    assert_eq!(cpu.pc(), 0x206);
    let cpu = run_with(&[0x60, 0x20, 0xE0, 0x9E], 2, keys);
    assert_eq!(cpu.pc(), 0x204);
}

#[test]
fn timers_load_read_and_count_down() {
    // V0 := 9; DT := V0; ST := V0; V1 := DT
    let cpu = run(&[0x60, 0x09, 0xF0, 0x15, 0xF0, 0x18, 0xF1, 0x07], 4);
    assert_eq!(cpu.v_register(1), 7);
    assert_eq!(cpu.delay_timer(), 7);
    assert_eq!(cpu.sound_timer(), 8);
}

#[test]
fn decimal_digits_are_stored_at_index() {
    let cpu = run(&[0x60, 0xFE, 0xA3, 0x00, 0xF0, 0x33], 3);
    assert_eq!(cpu.memory_byte(0x300), 2);
    assert_eq!(cpu.memory_byte(0x301), 5);
    assert_eq!(cpu.memory_byte(0x302), 4);
}

#[test]
fn registers_round_trip_through_memory() {
    let program = [
        0x60, 0x11, 0x61, 0x22, 0x62, 0x33, 0xA4, 0x00, 0xF1, 0x55, 0x60, 0x00, 0x61, 0x00,
        0x62, 0x00, 0xF2, 0x65,
    ];
    let cpu = run(&program, 9);
    assert_eq!(cpu.memory_byte(0x400), 0x11);
    assert_eq!(cpu.memory_byte(0x401), 0x22);
    assert_eq!(cpu.memory_byte(0x402), 0);
    assert_eq!(cpu.v_register(0), 0x11);
    assert_eq!(cpu.v_register(1), 0x22);
    assert_eq!(cpu.v_register(2), 0);
}

#[test]
fn memory_writes_wrap_past_the_last_address() {
    let cpu = run(&[0x60, 0x11, 0x61, 0x22, 0xAF, 0xFF, 0xF1, 0x55], 4);
    assert_eq!(cpu.memory_byte(0xFFF), 0x11);
    assert_eq!(cpu.memory_byte(0x000), 0x22);
}

#[test]
fn unknown_words_only_advance() {
    let cpu = run(&[0x50, 0x01, 0x01, 0x23, 0x8A, 0xB8], 3);
    assert_eq!(cpu.pc(), 0x206);
    for k in 0..16 {
        assert_eq!(cpu.v_register(k), 0);
    }
}

#[test]
fn counter_wraps_at_the_end_of_memory() {
    let cpu = run(&[0x1F, 0xFE], 2);
    assert_eq!(cpu.pc(), 0x000);
}
