use chip8::{Chip8, Fault, KeyWait};

const NO_KEYS: [bool; 16] = [false; 16];

fn loaded(program: &[u8]) -> Chip8 {
    let mut cpu = Chip8::new();
    cpu.load_into_memory(program);
    cpu
}

fn run(program: &[u8], cycles: usize) -> Chip8 {
    let mut cpu = loaded(program);
    for _ in 0..cycles {
        cpu.tick_with_random(NO_KEYS, 0).unwrap();
    }
    cpu
}

#[test]
fn add_program_end_to_end() {
    let cpu = run(&[0x60, 0x05, 0x61, 0x03, 0x80, 0x14], 3);
    assert_eq!(cpu.v_register(0), 8);
    assert_eq!(cpu.v_register(0xF), 0);
    assert_eq!(cpu.pc(), 0x206);
}

#[test]
fn skip_not_taken_when_register_differs() {
    let mut cpu = loaded(&[0x33, 0x01, 0x60, 0x99, 0x61, 0x99]);
    cpu.tick_with_random(NO_KEYS, 0).unwrap();
    assert_eq!(cpu.pc(), 0x202);
    cpu.tick_with_random(NO_KEYS, 0).unwrap();
    assert_eq!(cpu.v_register(0), 0x99);
}

#[test]
fn skip_taken_when_register_matches() {
    let mut cpu = loaded(&[0x63, 0x01, 0x33, 0x01, 0x60, 0x99, 0x61, 0x99]);
    cpu.tick_with_random(NO_KEYS, 0).unwrap();
    assert_eq!(cpu.pc(), 0x202);
    cpu.tick_with_random(NO_KEYS, 0).unwrap();
    assert_eq!(cpu.pc(), 0x206);
    cpu.tick_with_random(NO_KEYS, 0).unwrap();
    assert_eq!(cpu.v_register(0), 0);
    assert_eq!(cpu.v_register(1), 0x99);
    assert_eq!(cpu.pc(), 0x208);
}

#[test]
fn key_wait_blocks_until_a_key_is_pressed() {
    // V0 := 5; DT := V0; wait for a key into V3
    let mut cpu = run(&[0x60, 0x05, 0xF0, 0x15, 0xF3, 0x0A], 3);
    assert_eq!(cpu.key_wait(), KeyWait::WaitingForKey(3));
    assert_eq!(cpu.delay_timer(), 4);
    assert_eq!(cpu.pc(), 0x206);

    assert_eq!(cpu.tick_with_random(NO_KEYS, 0), Ok(false));
    assert_eq!(cpu.v_register(3), 0);
    assert_eq!(cpu.key_wait(), KeyWait::WaitingForKey(3));
    assert_eq!(cpu.pc(), 0x206);
    assert_eq!(cpu.delay_timer(), 4);

    let mut keys = NO_KEYS;
    keys[7] = true;
    assert_eq!(cpu.tick_with_random(keys, 0), Ok(false));
    assert_eq!(cpu.v_register(3), 7);
    assert_eq!(cpu.key_wait(), KeyWait::Running);
    assert_eq!(cpu.pc(), 0x206);
    assert_eq!(cpu.delay_timer(), 4);
}

#[test]
fn key_wait_takes_the_lowest_pressed_key() {
    let mut cpu = run(&[0xF5, 0x0A], 1);
    let mut keys = NO_KEYS;
    keys[0xC] = true;
    keys[0x4] = true;
    cpu.tick_with_random(keys, 0).unwrap();
    assert_eq!(cpu.v_register(5), 4);
}

#[test]
fn load_then_add_wraps() {
    let cpu = run(&[0x64, 0xF0, 0x74, 0x20], 2);
    assert_eq!(cpu.v_register(4), 0x10);
    assert_eq!(cpu.v_register(0xF), 0);
}

#[test]
fn add_sets_carry_exactly_above_255() {
    let cpu = run(&[0x60, 0xFF, 0x61, 0x01, 0x80, 0x14], 3);
    assert_eq!(cpu.v_register(0), 0);
    assert_eq!(cpu.v_register(0xF), 1);
    let cpu = run(&[0x60, 0xFE, 0x61, 0x01, 0x80, 0x14], 3);
    assert_eq!(cpu.v_register(0), 0xFF);
    assert_eq!(cpu.v_register(0xF), 0);
}

#[test]
fn add_carry_wins_when_target_is_flag_register() {
    let cpu = run(&[0x6F, 0xFF, 0x61, 0x02, 0x8F, 0x14], 3);
    assert_eq!(cpu.v_register(0xF), 1);
}

#[test]
fn subtract_flag_uses_operands_before_subtraction() {
    let cpu = run(&[0x60, 0x05, 0x61, 0x10, 0x80, 0x15], 3);
    assert_eq!(cpu.v_register(0xF), 0);
    assert_eq!(cpu.v_register(0), 0xF5);
    let cpu = run(&[0x60, 0x05, 0x61, 0x10, 0x80, 0x17], 3);
    assert_eq!(cpu.v_register(0xF), 1);
    assert_eq!(cpu.v_register(0), 0x0B);
    let cpu = run(&[0x60, 0x10, 0x61, 0x10, 0x80, 0x15], 3);
    assert_eq!(cpu.v_register(0xF), 0);
    assert_eq!(cpu.v_register(0), 0);
}

#[test]
fn call_then_return_resumes_after_the_call() {
    // 0x200: call 0x206; 0x202: V0 := 1; 0x204: jump 0x204; 0x206: return
    let mut cpu = loaded(&[0x22, 0x06, 0x60, 0x01, 0x12, 0x04, 0x00, 0xEE]);
    cpu.tick_with_random(NO_KEYS, 0).unwrap();
    assert_eq!(cpu.pc(), 0x206);
    assert_eq!(cpu.sp(), 1);
    assert_eq!(cpu.stack_slot(0), 0x202);
    cpu.tick_with_random(NO_KEYS, 0).unwrap();
    assert_eq!(cpu.pc(), 0x202);
    assert_eq!(cpu.sp(), 0);
    cpu.tick_with_random(NO_KEYS, 0).unwrap();
    assert_eq!(cpu.v_register(0), 1);
}

#[test]
fn sixteen_nested_calls_fit_and_the_seventeenth_overflows() {
    // A routine at 0x200 that calls itself.
    let mut cpu = loaded(&[0x22, 0x00]);
    for depth in 1..=16 {
        assert_eq!(cpu.tick_with_random(NO_KEYS, 0), Ok(false));
        assert_eq!(cpu.sp(), depth);
        assert_eq!(cpu.stack_slot(depth - 1), 0x202);
    }
    assert_eq!(cpu.tick_with_random(NO_KEYS, 0), Err(Fault::StackOverflow));
    assert_eq!(cpu.sp(), 16);
    assert_eq!(cpu.pc(), 0x200);
}

#[test]
fn return_with_empty_stack_underflows_and_changes_nothing() {
    let mut cpu = run(&[0x60, 0x03, 0xF0, 0x15, 0x00, 0xEE], 2);
    assert_eq!(cpu.delay_timer(), 3);
    let mut keys = NO_KEYS;
    keys[2] = true;
    assert_eq!(cpu.tick_with_random(keys, 0), Err(Fault::StackUnderflow));
    assert_eq!(cpu.pc(), 0x204);
    assert_eq!(cpu.sp(), 0);
    assert_eq!(cpu.delay_timer(), 3);
    assert!(!cpu.key_held(2));
}

#[test]
fn drawing_twice_restores_the_screen_and_reports_collision() {
    // I := glyph 0; draw it at (V0, V1) twice.
    let mut cpu = loaded(&[0xA0, 0x00, 0xD0, 0x15, 0xD0, 0x15]);
    cpu.tick_with_random(NO_KEYS, 0).unwrap();
    assert_eq!(cpu.tick_with_random(NO_KEYS, 0), Ok(true));
    assert_eq!(cpu.v_register(0xF), 0);
    // Glyph 0 starts with 0xF0: four lit pixels on the top row.
    for col in 0..8 {
        assert_eq!(cpu.pixel(0, col), if col < 4 { 1 } else { 0 });
    }
    assert_eq!(cpu.pixel(1, 0), 1);
    assert_eq!(cpu.pixel(1, 1), 0);
    assert_eq!(cpu.tick_with_random(NO_KEYS, 0), Ok(true));
    assert_eq!(cpu.v_register(0xF), 1);
    for row in cpu.frame_buffer().iter() {
        assert!(row.iter().all(|&p| p == 0));
    }
}

#[test]
fn drawing_wraps_around_both_edges() {
    // V0 := 62; V1 := 31; I := glyph 0; draw two rows.
    let cpu = run(&[0x60, 0x3E, 0x61, 0x1F, 0xA0, 0x00, 0xD0, 0x12], 4);
    assert_eq!(cpu.pixel(31, 62), 1);
    assert_eq!(cpu.pixel(31, 63), 1);
    assert_eq!(cpu.pixel(31, 0), 1);
    assert_eq!(cpu.pixel(31, 1), 1);
    assert_eq!(cpu.pixel(31, 2), 0);
    // Second row of glyph 0 is 0x90: pixels 0 and 3 of the row.
    assert_eq!(cpu.pixel(0, 62), 1);
    assert_eq!(cpu.pixel(0, 63), 0);
    assert_eq!(cpu.pixel(0, 1), 1);
}

#[test]
fn cycles_without_drawing_report_no_redraw() {
    let mut cpu = loaded(&[0x60, 0x01, 0x00, 0xE0, 0x60, 0x02]);
    assert_eq!(cpu.tick_with_random(NO_KEYS, 0), Ok(false));
    assert_eq!(cpu.tick_with_random(NO_KEYS, 0), Ok(true));
    assert!(cpu.draw_flag());
    assert_eq!(cpu.tick_with_random(NO_KEYS, 0), Ok(false));
    assert!(!cpu.draw_flag());
}
