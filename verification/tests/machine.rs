//! Whole-machine behavior: control transfer, the display, timers, keys.
use chip8::Env;
use chip8::VmError;

const TICK: u64 = 16_666_666;

fn load(rom: &[u8]) -> Env {
    let mut env = Env::new();
    env.load_into_memory(&rom.to_vec());
    env
}

fn run(env: &mut Env) -> Result<(), VmError> {
    env.read_instr(0, 0, None)
}

#[test]
fn end_to_end_set_then_add() {
    // ROM [0x60,0x05,0x70,0x03] at 0x200: after two steps V0 == 8 and
    // PC == 0x204.
    let mut env = load(&[0x60, 0x05, 0x70, 0x03]);
    run(&mut env).unwrap();
    run(&mut env).unwrap();
    assert_eq!(env.variable_registers[0], 8);
    assert_eq!(env.program_counter, 0x204);
}

#[test]
fn call_then_return_resumes_after_call() {
    // A call at 0x200 to 0x208, a return there: execution resumes at
    // 0x202, the instruction after the call.
    let mut rom = vec![0u8; 10];
    rom[0] = 0x22;
    rom[1] = 0x08; // call 0x208
    rom[8] = 0x00;
    rom[9] = 0xEE; // return
    let mut env = load(&rom);
    run(&mut env).unwrap();
    assert_eq!(env.program_counter, 0x208);
    run(&mut env).unwrap();
    assert_eq!(env.program_counter, 0x202);
}

#[test]
fn sixteen_nested_calls_then_overflow() {
    // Each instruction calls the next address: sixteen calls succeed,
    // the seventeenth is the fatal stack overflow.
    let mut rom: Vec<u8> = Vec::new();
    for i in 0..17u16 {
        let target = 0x202 + 2 * i;
        rom.push(0x20 | (target >> 8) as u8);
        rom.push((target & 0xFF) as u8);
    }
    let mut env = load(&rom);
    for _ in 0..16 {
        run(&mut env).unwrap();
    }
    assert_eq!(run(&mut env), Err(VmError::StackOverflow));
}

#[test]
fn return_with_empty_stack_is_fatal() {
    let mut env = load(&[0x00, 0xEE]);
    assert_eq!(run(&mut env), Err(VmError::StackUnderflow));
}

#[test]
fn draw_sets_pixels_and_reports_no_collision() {
    // One 8-pixel row drawn at (0, 0) from a fresh display: VF == 0 and
    // the row's high bits are set.
    let mut env = load(&[0xA2, 0x06, 0xD0, 0x01, 0x00, 0x00, 0xFF]);
    run(&mut env).unwrap();
    run(&mut env).unwrap();
    assert_eq!(env.variable_registers[15], 0);
    assert!(env.display_changed);
    assert_eq!(env.display[0], 0xFFu64 << 56);
}

#[test]
fn draw_overlap_reports_collision() {
    // Drawing the same sprite twice: the second draw clears the pixels
    // and reports VF == 1, recording them in the fade overlay.
    let mut env = load(&[0xA2, 0x08, 0xD0, 0x01, 0xD0, 0x01, 0x00, 0x00, 0xFF]);
    run(&mut env).unwrap();
    run(&mut env).unwrap();
    run(&mut env).unwrap();
    assert_eq!(env.variable_registers[15], 1);
    assert_eq!(env.display[0], 0);
    assert_eq!(env.fading_pixels[0], 0xFFu64 << 56);
}

#[test]
fn draw_disjoint_sprites_no_collision() {
    // Two sprites on different rows never collide.
    let mut env = load(&[
        0xA2, 0x0A, // I = sprite
        0x61, 0x01, // V1 = 1 (second row)
        0xD0, 0x01, // draw at (0, 0)
        0xD1, 0x11, // draw at (1, 1)
        0x00, 0x00, 0xFF,
    ]);
    for _ in 0..4 {
        run(&mut env).unwrap();
    }
    assert_eq!(env.variable_registers[15], 0);
}

#[test]
fn draw_x_offset_shifts_row() {
    // The leftmost sprite bit lands on column Vx.
    let mut env = load(&[0xA2, 0x08, 0x60, 0x04, 0x61, 0x00, 0xD0, 0x11, 0x80]);
    run(&mut env).unwrap();
    run(&mut env).unwrap();
    run(&mut env).unwrap();
    run(&mut env).unwrap();
    assert_eq!(env.display[0], 1u64 << 59);
}

#[test]
fn draw_rows_wrap_past_bottom() {
    // A two-row sprite at y = 31 wraps: its second row lands on row 0.
    let mut env = load(&[0xA2, 0x08, 0x61, 0x1F, 0xD0, 0x12, 0x00, 0x00, 0xFF, 0xFF]);
    run(&mut env).unwrap();
    run(&mut env).unwrap();
    run(&mut env).unwrap();
    assert_eq!(env.display[31], 0xFFu64 << 56);
    assert_eq!(env.display[0], 0xFFu64 << 56);
}

#[test]
fn draw_out_of_bounds_sprite_is_fatal() {
    // Reading sprite bytes past the end of memory is fatal.
    let mut env = load(&[0xAF, 0xFF, 0xD0, 0x02]);
    run(&mut env).unwrap();
    assert_eq!(run(&mut env), Err(VmError::OutOfBoundsMemoryAccess));
}

#[test]
fn clear_display_zeroes_rows() {
    let mut env = load(&[0xA2, 0x06, 0xD0, 0x01, 0x00, 0xE0, 0xFF]);
    run(&mut env).unwrap();
    run(&mut env).unwrap();
    assert!(env.display[0] != 0);
    run(&mut env).unwrap();
    for r in 0..32 {
        assert_eq!(env.display[r], 0);
    }
}

#[test]
fn delay_timer_counts_down_and_floors_at_zero() {
    // delay_timer = 10; after exactly 10/60 s of polled steps it reads
    // 0 and stays there.
    let mut env = load(&[0x6A, 0x0A, 0xFA, 0x15, 0x12, 0x04]);
    run(&mut env).unwrap();
    run(&mut env).unwrap();
    assert_eq!(env.delay_timer, 10);
    for i in 1..=10u64 {
        env.read_instr(i * TICK, 0, None).unwrap();
        assert_eq!(env.delay_timer, 10 - i as u8);
    }
    assert_eq!(env.delay_timer, 0);
    for i in 11..=14u64 {
        env.read_instr(i * TICK, 0, None).unwrap();
        assert_eq!(env.delay_timer, 0);
    }
}

#[test]
fn timer_holds_between_ticks() {
    // Steps faster than 60 Hz do not decrement the timer.
    let mut env = load(&[0x6A, 0x02, 0xFA, 0x15, 0x12, 0x04]);
    run(&mut env).unwrap();
    run(&mut env).unwrap();
    env.read_instr(TICK - 1, 0, None).unwrap();
    assert_eq!(env.delay_timer, 2);
    env.read_instr(TICK, 0, None).unwrap();
    assert_eq!(env.delay_timer, 1);
}

#[test]
fn read_delay_timer_into_register() {
    let mut env = load(&[0x6A, 0x07, 0xFA, 0x15, 0xF3, 0x07]);
    run(&mut env).unwrap();
    run(&mut env).unwrap();
    run(&mut env).unwrap();
    assert_eq!(env.variable_registers[3], 7);
}

#[test]
fn sound_timer_drives_beep() {
    let mut env = load(&[0x6A, 0x02, 0xFA, 0x18, 0x12, 0x04]);
    run(&mut env).unwrap();
    assert!(!env.is_beeping());
    run(&mut env).unwrap();
    assert!(env.is_beeping());
    env.read_instr(TICK, 0, None).unwrap();
    assert!(env.is_beeping());
    env.read_instr(2 * TICK, 0, None).unwrap();
    assert!(!env.is_beeping());
}

#[test]
fn skip_when_key_pressed() {
    // Ex9E skips only when the key named by Vx is down.
    let mut env = load(&[0x60, 0x05, 0xE0, 0x9E]);
    run(&mut env).unwrap();
    env.read_instr(0, 1 << 5, None).unwrap();
    assert_eq!(env.program_counter, 0x206);

    let mut env2 = load(&[0x60, 0x05, 0xE0, 0x9E]);
    run(&mut env2).unwrap();
    env2.read_instr(0, 0, None).unwrap();
    assert_eq!(env2.program_counter, 0x204);
}

#[test]
fn skip_when_key_not_pressed() {
    // ExA1 skips only when the key named by Vx is up.
    let mut env = load(&[0x60, 0x05, 0xE0, 0xA1]);
    run(&mut env).unwrap();
    env.read_instr(0, 1 << 5, None).unwrap();
    assert_eq!(env.program_counter, 0x204);

    let mut env2 = load(&[0x60, 0x05, 0xE0, 0xA1]);
    run(&mut env2).unwrap();
    env2.read_instr(0, 0, None).unwrap();
    assert_eq!(env2.program_counter, 0x206);
}

#[test]
fn blocking_key_read_waits_for_a_key() {
    // Fx0A holds the machine until a key event arrives, then stores the
    // key and lets the following instruction run.
    let mut env = load(&[0xF4, 0x0A, 0x61, 0x01]);
    run(&mut env).unwrap();
    assert_eq!(env.program_counter, 0x202);
    // No key yet: the machine idles, executing nothing.
    run(&mut env).unwrap();
    run(&mut env).unwrap();
    assert_eq!(env.program_counter, 0x202);
    assert_eq!(env.variable_registers[1], 0);
    // A key arrives: it lands in V4 and execution resumes.
    env.read_instr(0, 0, Some(0xB)).unwrap();
    assert_eq!(env.variable_registers[4], 0xB);
    run(&mut env).unwrap();
    assert_eq!(env.variable_registers[1], 1);
}

#[test]
fn blocking_key_read_keeps_timers_running() {
    // The timer cadence survives a blocking key wait.
    let mut env = load(&[0x6A, 0x03, 0xFA, 0x15, 0xF0, 0x0A]);
    run(&mut env).unwrap();
    run(&mut env).unwrap();
    run(&mut env).unwrap();
    env.read_instr(TICK, 0, None).unwrap();
    env.read_instr(2 * TICK, 0, None).unwrap();
    assert_eq!(env.delay_timer, 1);
}

#[test]
fn fresh_machine_state() {
    let env = Env::new();
    assert_eq!(env.program_counter, 0x200);
    assert_eq!(env.index_register, 0);
    assert_eq!(env.stack_next_pos, 0);
    assert!(!env.display_changed);
    assert!(!env.is_beeping());
    for r in 0..16 {
        assert_eq!(env.variable_registers[r], 0);
    }
    // The font table sits at 0x50; everything around it is zero.
    assert_eq!(env.memory[0x4F], 0);
    assert_eq!(env.memory[0x50], 0xF0);
    assert_eq!(env.memory[0x9F], 0x80);
    assert_eq!(env.memory[0xA0], 0);
}
