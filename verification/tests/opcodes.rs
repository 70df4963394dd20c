//! Behavior of single opcodes, driven through `read_instr`.
use chip8::Env;
use chip8::VmError;

fn boot(rom: &[u8]) -> Env {
    let mut env = Env::new();
    env.load_into_memory(&rom.to_vec());
    env
}

fn step(env: &mut Env) -> Result<(), VmError> {
    env.read_instr(0, 0, None)
}

#[test]
fn set_register_immediate() {
    // 6xkk then read: Vx == kk.
    let mut env = boot(&[0x63, 0xAB]);
    step(&mut env).unwrap();
    assert_eq!(env.variable_registers[3], 0xAB);
    assert_eq!(env.program_counter, 0x202);
}

#[test]
fn add_with_carry_flag() {
    // 0xFF + 0x01 wraps to 0x00 with VF = 1.
    let mut env = boot(&[0x60, 0xFF, 0x61, 0x01, 0x80, 0x14]);
    step(&mut env).unwrap();
    step(&mut env).unwrap();
    step(&mut env).unwrap();
    assert_eq!(env.variable_registers[0], 0x00);
    assert_eq!(env.variable_registers[15], 1);
}

#[test]
fn add_without_carry_flag() {
    // 0x01 + 0x01 = 0x02 with VF = 0.
    let mut env = boot(&[0x60, 0x01, 0x61, 0x01, 0x80, 0x14]);
    step(&mut env).unwrap();
    step(&mut env).unwrap();
    step(&mut env).unwrap();
    assert_eq!(env.variable_registers[0], 0x02);
    assert_eq!(env.variable_registers[15], 0);
}

#[test]
fn sub_without_borrow() {
    // Vx=5, Vy=3: Vx becomes 2 and VF = 1 (no borrow).
    let mut env = boot(&[0x60, 0x05, 0x61, 0x03, 0x80, 0x15]);
    step(&mut env).unwrap();
    step(&mut env).unwrap();
    step(&mut env).unwrap();
    assert_eq!(env.variable_registers[0], 2);
    assert_eq!(env.variable_registers[15], 1);
}

#[test]
fn sub_with_borrow() {
    // Vx=3, Vy=5: Vx becomes 254 and VF = 0 (borrow).
    let mut env = boot(&[0x60, 0x03, 0x61, 0x05, 0x80, 0x15]);
    step(&mut env).unwrap();
    step(&mut env).unwrap();
    step(&mut env).unwrap();
    assert_eq!(env.variable_registers[0], 254);
    assert_eq!(env.variable_registers[15], 0);
}

#[test]
fn subn_reverse_subtraction() {
    // 8xy7: Vx = Vy - Vx; VF = 1 when Vy >= Vx.
    let mut env = boot(&[0x60, 0x03, 0x61, 0x05, 0x80, 0x17]);
    step(&mut env).unwrap();
    step(&mut env).unwrap();
    step(&mut env).unwrap();
    assert_eq!(env.variable_registers[0], 2);
    assert_eq!(env.variable_registers[15], 1);
}

#[test]
fn shift_right_keeps_low_bit() {
    // Vx = 0b011 shifts to 0b001 with VF = 1.
    let mut env = boot(&[0x60, 0b011, 0x80, 0x06]);
    step(&mut env).unwrap();
    step(&mut env).unwrap();
    assert_eq!(env.variable_registers[0], 0b001);
    assert_eq!(env.variable_registers[15], 1);
}

#[test]
fn shift_left_keeps_high_bit() {
    // Vx = 0b10000001 shifts to 0b00000010 with VF = 1.
    let mut env = boot(&[0x60, 0b1000_0001, 0x80, 0x0E]);
    step(&mut env).unwrap();
    step(&mut env).unwrap();
    assert_eq!(env.variable_registers[0], 0b0000_0010);
    assert_eq!(env.variable_registers[15], 1);
}

#[test]
fn bitwise_or_and_xor() {
    let mut env = boot(&[
        0x60, 0b1100, 0x61, 0b1010, 0x80, 0x11, // V0 |= V1
        0x62, 0b1100, 0x82, 0x12, // V2 &= V1
        0x63, 0b1100, 0x83, 0x13, // V3 ^= V1
    ]);
    for _ in 0..7 {
        step(&mut env).unwrap();
    }
    assert_eq!(env.variable_registers[0], 0b1110);
    assert_eq!(env.variable_registers[2], 0b1000);
    assert_eq!(env.variable_registers[3], 0b0110);
}

#[test]
fn add_immediate_wraps_without_flag() {
    // 7xkk wraps modulo 256 and leaves VF alone.
    let mut env = boot(&[0x60, 0xFF, 0x70, 0x02]);
    step(&mut env).unwrap();
    step(&mut env).unwrap();
    assert_eq!(env.variable_registers[0], 0x01);
    assert_eq!(env.variable_registers[15], 0);
}

#[test]
fn skip_if_equal_immediate() {
    // 3xkk skips the following instruction when Vx == kk.
    let mut env = boot(&[0x60, 0x07, 0x30, 0x07, 0x61, 0x01, 0x62, 0x01]);
    step(&mut env).unwrap();
    step(&mut env).unwrap();
    assert_eq!(env.program_counter, 0x206);
    step(&mut env).unwrap();
    assert_eq!(env.variable_registers[1], 0);
    assert_eq!(env.variable_registers[2], 1);
}

#[test]
fn skip_if_not_equal_immediate_no_skip() {
    // 4xkk does not skip when Vx == kk.
    let mut env = boot(&[0x60, 0x07, 0x40, 0x07]);
    step(&mut env).unwrap();
    step(&mut env).unwrap();
    assert_eq!(env.program_counter, 0x204);
}

#[test]
fn skip_if_registers_equal_and_not_equal() {
    let mut env = boot(&[0x60, 0x09, 0x61, 0x09, 0x50, 0x10]);
    step(&mut env).unwrap();
    step(&mut env).unwrap();
    step(&mut env).unwrap();
    assert_eq!(env.program_counter, 0x208);

    let mut env2 = boot(&[0x60, 0x09, 0x61, 0x08, 0x90, 0x10]);
    step(&mut env2).unwrap();
    step(&mut env2).unwrap();
    step(&mut env2).unwrap();
    assert_eq!(env2.program_counter, 0x208);
}

#[test]
fn jump_lands_exactly_on_target() {
    // 1nnn with nnn = 0x250: the next fetch happens at 0x250, not 0x252.
    let mut env = boot(&[0x12, 0x50]);
    step(&mut env).unwrap();
    assert_eq!(env.program_counter, 0x250);
}

#[test]
fn jump_v0_relative() {
    // Bnnn jumps to V0 + nnn.
    let mut env = boot(&[0x60, 0x10, 0xB2, 0x40]);
    step(&mut env).unwrap();
    step(&mut env).unwrap();
    assert_eq!(env.program_counter, 0x250);
}

#[test]
fn set_index_register_value() {
    let mut env = boot(&[0xA1, 0x23]);
    step(&mut env).unwrap();
    assert_eq!(env.index_register, 0x123);
}

#[test]
fn add_register_to_index() {
    let mut env = boot(&[0xA1, 0x00, 0x60, 0x05, 0xF0, 0x1E]);
    step(&mut env).unwrap();
    step(&mut env).unwrap();
    step(&mut env).unwrap();
    assert_eq!(env.index_register, 0x105);
}

#[test]
fn font_address_of_digit() {
    // Fx29: each glyph is 5 bytes from the font offset 0x50.
    let mut env = boot(&[0x60, 0x0A, 0xF0, 0x29]);
    step(&mut env).unwrap();
    step(&mut env).unwrap();
    assert_eq!(env.index_register, 0x50 + 10 * 5);
    // The glyph bytes for digit 0 sit right at the font offset.
    assert_eq!(env.memory[0x50], 0xF0);
    assert_eq!(env.memory[0x54], 0xF0);
}

#[test]
fn bcd_digits_stored_at_index() {
    // Fx33 of 254 stores 2, 5, 4.
    let mut env = boot(&[0x60, 0xFE, 0xA3, 0x00, 0xF0, 0x33]);
    step(&mut env).unwrap();
    step(&mut env).unwrap();
    step(&mut env).unwrap();
    assert_eq!(env.memory[0x300], 2);
    assert_eq!(env.memory[0x301], 5);
    assert_eq!(env.memory[0x302], 4);
}

#[test]
fn store_and_load_registers() {
    // Fx55 then Fx65 round-trips V0..=V2 through memory.
    let mut env = boot(&[
        0x60, 0x11, 0x61, 0x22, 0x62, 0x33, 0xA3, 0x00, 0xF2, 0x55, // store V0..=V2
        0x60, 0x00, 0x61, 0x00, 0x62, 0x00, // clear them
        0xF2, 0x65, // load V0..=V2 back
    ]);
    for _ in 0..9 {
        step(&mut env).unwrap();
    }
    assert_eq!(env.memory[0x300], 0x11);
    assert_eq!(env.memory[0x301], 0x22);
    assert_eq!(env.memory[0x302], 0x33);
    assert_eq!(env.variable_registers[0], 0x11);
    assert_eq!(env.variable_registers[1], 0x22);
    assert_eq!(env.variable_registers[2], 0x33);
    // Registers above Vx are untouched by the load.
    assert_eq!(env.variable_registers[3], 0);
}

#[test]
fn random_masked_by_zero_is_zero() {
    // Cx00 masks the random byte with 0: Vx must be 0.
    let mut env = boot(&[0x60, 0x55, 0xC0, 0x00]);
    step(&mut env).unwrap();
    step(&mut env).unwrap();
    assert_eq!(env.variable_registers[0], 0);
}

#[test]
fn random_respects_mask() {
    // Cx0F clears every bit outside the mask.
    let mut env = boot(&[0xC0, 0x0F]);
    step(&mut env).unwrap();
    assert_eq!(env.variable_registers[0] & 0xF0, 0);
}

#[test]
fn unknown_opcode_is_fatal() {
    // Primary nibble 5 with a nonzero last nibble is not in the table.
    let mut env = boot(&[0x50, 0x01]);
    assert_eq!(step(&mut env), Err(VmError::UnrecognizedOpcode));
}

#[test]
fn unknown_zero_family_opcode_is_fatal() {
    let mut env = boot(&[0x00, 0xE1]);
    assert_eq!(step(&mut env), Err(VmError::UnrecognizedOpcode));
}

#[test]
fn bcd_out_of_bounds_is_fatal() {
    // I = 0xFFF leaves no room for three digits.
    let mut env = boot(&[0xAF, 0xFF, 0xF0, 0x33]);
    step(&mut env).unwrap();
    assert_eq!(step(&mut env), Err(VmError::OutOfBoundsMemoryAccess));
}

#[test]
fn fetch_out_of_bounds_is_fatal() {
    // A jump to 0xFFF leaves no room to fetch two bytes.
    let mut env = boot(&[0x1F, 0xFF]);
    step(&mut env).unwrap();
    assert_eq!(step(&mut env), Err(VmError::OutOfBoundsMemoryAccess));
}

#[test]
fn unpack_and_pack_are_inverse() {
    assert_eq!(chip8::vm::unpack(0xAB, 0xCD), (0xA, 0xB, 0xC, 0xD));
    assert_eq!(chip8::vm::pack(0xA, 0xB, 0xC, 0xD), 0xABCD);
    assert_eq!(chip8::vm::pack(0x0, 0x2, 0x5, 0x0), 0x250);
}

#[test]
fn store_registers_out_of_bounds_is_fatal() {
    // I = 0xFFF leaves no room for V0..=V2.
    let mut env = boot(&[0xAF, 0xFF, 0xF2, 0x55]);
    step(&mut env).unwrap();
    assert_eq!(step(&mut env), Err(VmError::OutOfBoundsMemoryAccess));
}

#[test]
fn load_registers_out_of_bounds_is_fatal() {
    let mut env = boot(&[0xAF, 0xFF, 0xF2, 0x65]);
    step(&mut env).unwrap();
    assert_eq!(step(&mut env), Err(VmError::OutOfBoundsMemoryAccess));
}

#[test]
fn key_state_reads_snapshot_bit() {
    let env = Env::new();
    assert!(env.get_hex_key_state(3, 1 << 3));
    assert!(!env.get_hex_key_state(3, !(1u16 << 3)));
    // Keys beyond the sixteen that exist always read as released.
    assert!(!env.get_hex_key_state(200, 0xFFFF));
}
