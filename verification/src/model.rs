//! Mathematical model of the interpreter.
//!
//! `Model` is the ghost image of the machine state; `Op` is the closed
//! set of decoded operations; `step_model` says exactly what one
//! fetch-decode-execute step does, including every fatal condition.
use vstd::prelude::*;

verus! {

/// Number of nanoseconds between two timer decrements (60 Hz cadence).
pub const TICK_NANOS: u64 = 16_666_666;

/// Lowest address of the built-in font table.
pub const FONT_START_LOCATION: u16 = 0x50;

/// Address at which a loaded program begins.
pub const PROGRAM_START_LOCATION: u16 = 0x200;

/// The fatal conditions a step can report. All of them end execution of
/// the loaded program; the driving loop decides what to do next.
#[derive(Clone, Copy, Debug, PartialEq, Eq, Structural)]
pub enum VmError {
    /// The fetched nibble pattern is not in the instruction table.
    UnrecognizedOpcode,
    /// A seventeenth nested call would exceed the stack capacity.
    StackOverflow,
    /// A return was executed with no outer subroutine to return to.
    StackUnderflow,
    /// A computed memory offset fell outside the 4096-byte address space.
    OutOfBoundsMemoryAccess,
}

/// Ghost image of the whole machine state.
#[verifier::ext_equal]
pub ghost struct Model {
    /// All 4096 bytes of memory.
    pub memory: Seq<u8>,
    /// 32 rows of 64 pixels; bit (63 - x) of a row is column x.
    pub display: Seq<u64>,
    /// Per row, the bits the most recent draw flipped from set to clear.
    pub fading: Seq<u64>,
    /// Set by every draw; consumed (and cleared) by the renderer.
    pub display_changed: bool,
    /// Program counter.
    pub pc: u16,
    /// The four nibbles of the most recently fetched instruction.
    pub instr: (u8, u8, u8, u8),
    /// Return addresses of the active subroutine calls, oldest first.
    pub stack: Seq<u16>,
    /// Decremented at the 60 Hz cadence, floored at zero.
    pub delay_timer: u8,
    /// Beeps while nonzero; same cadence as the delay timer.
    pub sound_timer: u8,
    /// Monotonic timestamp, in nanoseconds, of the last timer decrement.
    pub last_tick: u64,
    /// The 16-bit index register I.
    pub index: u16,
    /// The sixteen 8-bit general registers V0..VF.
    pub regs: Seq<u8>,
    /// `Some(x)` while a blocking key read into Vx is pending.
    pub awaiting_key: Option<u8>,
}

impl Model {
    /// Structural well-formedness: the sizes the machine was built with,
    /// and 4-bit bounds on decoded operands.
    pub open spec fn wf(self) -> bool {
        &&& self.memory.len() == 4096
        &&& self.display.len() == 32
        &&& self.fading.len() == 32
        &&& self.stack.len() <= 16
        &&& self.regs.len() == 16
        &&& self.instr.0 < 16
        &&& self.instr.1 < 16
        &&& self.instr.2 < 16
        &&& self.instr.3 < 16
        &&& (self.awaiting_key matches Some(x) ==> x < 16)
    }
}

/// The closed set of operations an instruction word can decode to.
/// `x` and `y` are register numbers (always below 16 by construction),
/// `kk` an immediate byte, the `u16` payloads 12-bit addresses.
#[derive(Clone, Copy, Debug, PartialEq, Eq, Structural)]
pub enum Op {
    /// 00E0: clear the display.
    ClearDisplay,
    /// 00EE: pop the stack into PC.
    Return,
    /// 1nnn: jump to nnn.
    Jump(u16),
    /// 2nnn: push PC, jump to nnn.
    Call(u16),
    /// 3xkk: skip the next instruction if Vx == kk.
    SkipEqImm { x: u8, kk: u8 },
    /// 4xkk: skip the next instruction if Vx != kk.
    SkipNeImm { x: u8, kk: u8 },
    /// 5xy0: skip the next instruction if Vx == Vy.
    SkipEqReg { x: u8, y: u8 },
    /// 6xkk: Vx = kk.
    SetImm { x: u8, kk: u8 },
    /// 7xkk: Vx = Vx + kk mod 256, no flag.
    AddImm { x: u8, kk: u8 },
    /// 8xy0: Vx = Vy.
    SetReg { x: u8, y: u8 },
    /// 8xy1: Vx |= Vy.
    OrReg { x: u8, y: u8 },
    /// 8xy2: Vx &= Vy.
    AndReg { x: u8, y: u8 },
    /// 8xy3: Vx ^= Vy.
    XorReg { x: u8, y: u8 },
    /// 8xy4: Vx = Vx + Vy mod 256, VF = carry.
    AddReg { x: u8, y: u8 },
    /// 8xy5: Vx = Vx - Vy mod 256, VF = 1 if no borrow.
    SubReg { x: u8, y: u8 },
    /// 8xy6: VF = low bit of Vx, then Vx >>= 1.
    ShrReg { x: u8 },
    /// 8xy7: Vx = Vy - Vx mod 256, VF = 1 if no borrow.
    SubnReg { x: u8, y: u8 },
    /// 8xyE: VF = high bit of Vx, then Vx <<= 1.
    ShlReg { x: u8 },
    /// 9xy0: skip the next instruction if Vx != Vy.
    SkipNeReg { x: u8, y: u8 },
    /// Annn: I = nnn.
    SetIndex(u16),
    /// Bnnn: jump to V0 + nnn.
    JumpV0(u16),
    /// Cxkk: Vx = random byte & kk.
    RandomAnd { x: u8, kk: u8 },
    /// Dxyn: draw an n-byte sprite from memory[I] at (Vx, Vy).
    Draw { x: u8, y: u8, n: u8 },
    /// Ex9E: skip the next instruction if key Vx is pressed.
    SkipKeyPressed { x: u8 },
    /// ExA1: skip the next instruction if key Vx is not pressed.
    SkipKeyNotPressed { x: u8 },
    /// Fx07: Vx = delay timer.
    ReadDelay { x: u8 },
    /// Fx0A: block until a key is pressed, store it in Vx.
    WaitKey { x: u8 },
    /// Fx15: delay timer = Vx.
    SetDelay { x: u8 },
    /// Fx18: sound timer = Vx.
    SetSound { x: u8 },
    /// Fx1E: I = I + Vx mod 65536.
    AddIndex { x: u8 },
    /// Fx29: I = font address of the hex digit Vx.
    FontAddr { x: u8 },
    /// Fx33: store the decimal digits of Vx at I, I+1, I+2.
    StoreBcd { x: u8 },
    /// Fx55: store V0..=Vx into memory starting at I.
    StoreRegs { x: u8 },
    /// Fx65: load V0..=Vx from memory starting at I.
    LoadRegs { x: u8 },
}

/// The four nibbles of a two-byte instruction word, most significant first.
pub open spec fn spec_unpack(a: u8, b: u8) -> (u8, u8, u8, u8) {
    ((a & 0xF0) >> 4, a & 0x0F, (b & 0xF0) >> 4, b & 0x0F)
}

/// Four nibbles reassembled into one 16-bit word.
pub open spec fn spec_pack(a: u8, b: u8, c: u8, d: u8) -> u16 {
    ((a as u16) << 12) | ((b as u16) << 8) | ((c as u16) << 4) | (d as u16)
}

/// The 12-bit address held in the low three nibbles of an instruction.
pub open spec fn nnn_of(i: (u8, u8, u8, u8)) -> u16
    recommends
        i.1 < 16 && i.2 < 16 && i.3 < 16,
{
    ((i.1 as int) * 256 + (i.2 as int) * 16 + (i.3 as int)) as u16
}

/// The immediate byte held in the low two nibbles of an instruction.
pub open spec fn kk_of(i: (u8, u8, u8, u8)) -> u8
    recommends
        i.2 < 16 && i.3 < 16,
{
    ((i.2 as int) * 16 + (i.3 as int)) as u8
}

/// Whether logical key `k` is pressed in the snapshot `keys`
/// (bit k of the mask; keys 16 and above do not exist).
pub open spec fn key_down(keys: u16, k: u8) -> bool {
    k < 16 && (keys >> (k as u16)) & 1 == 1
}

/// The instruction table: which operation a nibble pattern denotes,
/// or `None` for the fatal unrecognized-opcode condition.
pub open spec fn spec_decode(i: (u8, u8, u8, u8)) -> Option<Op> {
    let (a, b, c, d) = i;
    if a == 0 {
        if b == 0 && c == 0xE {
            if d == 0 {
                Some(Op::ClearDisplay)
            } else if d == 0xE {
                Some(Op::Return)
            } else {
                None
            }
        } else {
            None
        }
    } else if a == 1 {
        Some(Op::Jump(nnn_of(i)))
    } else if a == 2 {
        Some(Op::Call(nnn_of(i)))
    } else if a == 3 {
        Some(Op::SkipEqImm { x: b, kk: kk_of(i) })
    } else if a == 4 {
        Some(Op::SkipNeImm { x: b, kk: kk_of(i) })
    } else if a == 5 {
        if d == 0 {
            Some(Op::SkipEqReg { x: b, y: c })
        } else {
            None
        }
    } else if a == 6 {
        Some(Op::SetImm { x: b, kk: kk_of(i) })
    } else if a == 7 {
        Some(Op::AddImm { x: b, kk: kk_of(i) })
    } else if a == 8 {
        if d == 0 {
            Some(Op::SetReg { x: b, y: c })
        } else if d == 1 {
            Some(Op::OrReg { x: b, y: c })
        } else if d == 2 {
            Some(Op::AndReg { x: b, y: c })
        } else if d == 3 {
            Some(Op::XorReg { x: b, y: c })
        } else if d == 4 {
            Some(Op::AddReg { x: b, y: c })
        } else if d == 5 {
            Some(Op::SubReg { x: b, y: c })
        } else if d == 6 {
            Some(Op::ShrReg { x: b })
        } else if d == 7 {
            Some(Op::SubnReg { x: b, y: c })
        } else if d == 0xE {
            Some(Op::ShlReg { x: b })
        } else {
            None
        }
    } else if a == 9 {
        if d == 0 {
            Some(Op::SkipNeReg { x: b, y: c })
        } else {
            None
        }
    } else if a == 0xA {
        Some(Op::SetIndex(nnn_of(i)))
    } else if a == 0xB {
        Some(Op::JumpV0(nnn_of(i)))
    } else if a == 0xC {
        Some(Op::RandomAnd { x: b, kk: kk_of(i) })
    } else if a == 0xD {
        Some(Op::Draw { x: b, y: c, n: d })
    } else if a == 0xE {
        if c == 9 && d == 0xE {
            Some(Op::SkipKeyPressed { x: b })
        } else if c == 0xA && d == 1 {
            Some(Op::SkipKeyNotPressed { x: b })
        } else {
            None
        }
    } else if a == 0xF {
        if c == 0 && d == 7 {
            Some(Op::ReadDelay { x: b })
        } else if c == 0 && d == 0xA {
            Some(Op::WaitKey { x: b })
        } else if c == 1 && d == 5 {
            Some(Op::SetDelay { x: b })
        } else if c == 1 && d == 8 {
            Some(Op::SetSound { x: b })
        } else if c == 1 && d == 0xE {
            Some(Op::AddIndex { x: b })
        } else if c == 2 && d == 9 {
            Some(Op::FontAddr { x: b })
        } else if c == 3 && d == 3 {
            Some(Op::StoreBcd { x: b })
        } else if c == 5 && d == 5 {
            Some(Op::StoreRegs { x: b })
        } else if c == 6 && d == 5 {
            Some(Op::LoadRegs { x: b })
        } else {
            None
        }
    } else {
        None
    }
}

/// One 60 Hz timer tick: when at least 1/60 s of wall-clock time has
/// elapsed since the last decrement, both timers drop by one (floored
/// at zero) and the reference timestamp resets.
pub open spec fn tick(m: Model, now: u64) -> Model {
    if now - m.last_tick >= TICK_NANOS {
        Model {
            delay_timer: if m.delay_timer > 0 { (m.delay_timer - 1) as u8 } else { 0 },
            sound_timer: if m.sound_timer > 0 { (m.sound_timer - 1) as u8 } else { 0 },
            last_tick: now,
            ..m
        }
    } else {
        m
    }
}

/// The uniform advance past one two-byte instruction.
pub open spec fn adv(m: Model) -> Model {
    Model { pc: m.pc.wrapping_add(2), ..m }
}

/// Where the program counter lands after a conditional-skip handler.
pub open spec fn skip_pc(pc: u16, cond: bool) -> u16 {
    if cond { pc.wrapping_add(4) } else { pc.wrapping_add(2) }
}

/// An 8-pixel sprite byte as a 64-bit display row: the byte's high bit
/// lands in column x; columns shifted past the right edge are lost.
pub open spec fn sprite_row_mask(b: u8, x: u8) -> u64 {
    ((b as u64) << 56) >> ((x as u64) % 64)
}

/// The display row that sprite row `i` lands on: the y coordinate and
/// the row index both wrap modulo the 32 display rows.
pub open spec fn row_index(y: u8, i: int) -> int
    recommends
        0 <= i < 32,
{
    if (y % 32) + i < 32 { (y % 32) + i } else { (y % 32) + i - 32 }
}

/// Inverse of `row_index`: which sprite row (counted from the top of
/// the sprite) lands on display row `r`.
pub open spec fn sprite_index(y: u8, r: int) -> int
    recommends
        0 <= r < 32,
{
    if r >= (y % 32) { r - (y % 32) } else { r + 32 - (y % 32) }
}

/// The display after the first `upto` rows of a sprite at (x, y), read
/// from `mem` at `idx`, are composited by XOR into `disp`.
pub open spec fn draw_display(mem: Seq<u8>, disp: Seq<u64>, idx: u16, x: u8, y: u8, upto: int) -> Seq<u64> {
    Seq::new(32, |r: int|
        if sprite_index(y, r) < upto {
            disp[r] ^ sprite_row_mask(mem[idx + sprite_index(y, r)], x)
        } else {
            disp[r]
        })
}

/// The fade-overlay buffer after the same draw: on each composited row,
/// exactly the bits that went from set to clear; other rows keep their
/// previous overlay.
pub open spec fn draw_fading(mem: Seq<u8>, disp: Seq<u64>, fad: Seq<u64>, idx: u16, x: u8, y: u8, upto: int) -> Seq<u64> {
    Seq::new(32, |r: int|
        if sprite_index(y, r) < upto {
            disp[r] & sprite_row_mask(mem[idx + sprite_index(y, r)], x)
        } else {
            fad[r]
        })
}

/// Whether compositing the first `upto` sprite rows clears at least one
/// already-set pixel.
pub open spec fn draw_collision(mem: Seq<u8>, disp: Seq<u64>, idx: u16, x: u8, y: u8, upto: int) -> bool
    decreases upto,
{
    if upto <= 0 {
        false
    } else {
        draw_collision(mem, disp, idx, x, y, upto - 1)
            || disp[row_index(y, upto - 1)] & sprite_row_mask(mem[idx + upto - 1], x) != 0
    }
}

/// The draw operation before the uniform advance: the whole sprite
/// composited, the fade overlay recorded, the changed flag raised and
/// VF set to the collision verdict.
pub open spec fn op_draw(m: Model) -> Result<Model, VmError> {
    let x = m.regs[m.instr.1 as int];
    let y = m.regs[m.instr.2 as int];
    let h = m.instr.3 as int;
    if m.index + h > 4096 {
        Err(VmError::OutOfBoundsMemoryAccess)
    } else {
        Ok(Model {
            display: draw_display(m.memory, m.display, m.index, x, y, h),
            fading: draw_fading(m.memory, m.display, m.fading, m.index, x, y, h),
            display_changed: true,
            regs: m.regs.update(15, if draw_collision(m.memory, m.display, m.index, x, y, h) { 1u8 } else { 0u8 }),
            ..m
        })
    }
}

/// Memory after registers V0..V(upto-1) are stored at idx..idx+upto.
pub open spec fn mem_store(mem: Seq<u8>, idx: int, regs: Seq<u8>, upto: int) -> Seq<u8> {
    Seq::new(4096, |a: int| if idx <= a < idx + upto { regs[a - idx] } else { mem[a] })
}

/// Registers after V0..V(upto-1) are loaded from idx..idx+upto.
pub open spec fn regs_load(regs: Seq<u8>, mem: Seq<u8>, idx: int, upto: int) -> Seq<u8> {
    Seq::new(16, |j: int| if j < upto { mem[idx + j] } else { regs[j] })
}

/// The register file after 8xy6: the flag takes the low bit of Vx, then
/// Vx (read after the flag write) shifts right once.
pub open spec fn shr_regs(regs: Seq<u8>, x: int) -> Seq<u8>
    recommends
        regs.len() == 16,
        0 <= x < 16,
{
    let flagged = regs.update(15, regs[x] & 1);
    flagged.update(x, flagged[x] >> 1)
}

/// The register file after 8xyE: the flag takes the high bit of Vx,
/// then Vx (read after the flag write) shifts left once.
pub open spec fn shl_regs(regs: Seq<u8>, x: int) -> Seq<u8>
    recommends
        regs.len() == 16,
        0 <= x < 16,
{
    let flagged = regs.update(15, (regs[x] >> 7) & 1);
    flagged.update(x, flagged[x] << 1)
}

/// The net effect of one decoded operation on the machine state, given
/// the key snapshot and the byte the random source produced; the
/// program counter lands where the next fetch will happen.
pub open spec fn apply_op(m: Model, op: Op, keys: u16, rnd: u8) -> Result<Model, VmError> {
    match op {
        Op::ClearDisplay => Ok(adv(Model { display: Seq::new(32, |r: int| 0u64), ..m })),
        Op::Return => if m.stack.len() == 0 {
            Err(VmError::StackUnderflow)
        } else {
            Ok(Model { pc: m.stack.last().wrapping_add(2), stack: m.stack.drop_last(), ..m })
        },
        Op::Jump(nnn) => Ok(Model { pc: nnn, ..m }),
        Op::Call(nnn) => if m.stack.len() >= 16 {
            Err(VmError::StackOverflow)
        } else {
            Ok(Model { pc: nnn, stack: m.stack.push(m.pc), ..m })
        },
        Op::SkipEqImm { x, kk } => Ok(Model { pc: skip_pc(m.pc, m.regs[x as int] == kk), ..m }),
        Op::SkipNeImm { x, kk } => Ok(Model { pc: skip_pc(m.pc, m.regs[x as int] != kk), ..m }),
        Op::SkipEqReg { x, y } => Ok(Model { pc: skip_pc(m.pc, m.regs[x as int] == m.regs[y as int]), ..m }),
        Op::SetImm { x, kk } => Ok(adv(Model { regs: m.regs.update(x as int, kk), ..m })),
        Op::AddImm { x, kk } => Ok(adv(Model { regs: m.regs.update(x as int, m.regs[x as int].wrapping_add(kk)), ..m })),
        Op::SetReg { x, y } => Ok(adv(Model { regs: m.regs.update(x as int, m.regs[y as int]), ..m })),
        Op::OrReg { x, y } => Ok(adv(Model { regs: m.regs.update(x as int, m.regs[x as int] | m.regs[y as int]), ..m })),
        Op::AndReg { x, y } => Ok(adv(Model { regs: m.regs.update(x as int, m.regs[x as int] & m.regs[y as int]), ..m })),
        Op::XorReg { x, y } => Ok(adv(Model { regs: m.regs.update(x as int, m.regs[x as int] ^ m.regs[y as int]), ..m })),
        Op::AddReg { x, y } => Ok(adv(Model {
            regs: m.regs
                .update(x as int, m.regs[x as int].wrapping_add(m.regs[y as int]))
                .update(15, if m.regs[x as int] + m.regs[y as int] > 255 { 1u8 } else { 0u8 }),
            ..m
        })),
        Op::SubReg { x, y } => Ok(adv(Model {
            regs: m.regs
                .update(x as int, m.regs[x as int].wrapping_sub(m.regs[y as int]))
                .update(15, if m.regs[x as int] >= m.regs[y as int] { 1u8 } else { 0u8 }),
            ..m
        })),
        Op::ShrReg { x } => Ok(adv(Model { regs: shr_regs(m.regs, x as int), ..m })),
        Op::SubnReg { x, y } => Ok(adv(Model {
            regs: m.regs
                .update(x as int, m.regs[y as int].wrapping_sub(m.regs[x as int]))
                .update(15, if m.regs[y as int] >= m.regs[x as int] { 1u8 } else { 0u8 }),
            ..m
        })),
        Op::ShlReg { x } => Ok(adv(Model { regs: shl_regs(m.regs, x as int), ..m })),
        Op::SkipNeReg { x, y } => Ok(Model { pc: skip_pc(m.pc, m.regs[x as int] != m.regs[y as int]), ..m }),
        Op::SetIndex(nnn) => Ok(adv(Model { index: nnn, ..m })),
        Op::JumpV0(nnn) => Ok(Model { pc: (m.regs[0] + nnn) as u16, ..m }),
        Op::RandomAnd { x, kk } => Ok(adv(Model { regs: m.regs.update(x as int, rnd & kk), ..m })),
        Op::Draw { .. } => match op_draw(m) {
            Ok(d) => Ok(adv(d)),
            Err(e) => Err(e),
        },
        Op::SkipKeyPressed { x } => Ok(Model { pc: skip_pc(m.pc, key_down(keys, m.regs[x as int])), ..m }),
        Op::SkipKeyNotPressed { x } => Ok(Model { pc: skip_pc(m.pc, !key_down(keys, m.regs[x as int])), ..m }),
        Op::ReadDelay { x } => Ok(adv(Model { regs: m.regs.update(x as int, m.delay_timer), ..m })),
        Op::WaitKey { x } => Ok(adv(Model { awaiting_key: Some(x), ..m })),
        Op::SetDelay { x } => Ok(adv(Model { delay_timer: m.regs[x as int], ..m })),
        Op::SetSound { x } => Ok(adv(Model { sound_timer: m.regs[x as int], ..m })),
        Op::AddIndex { x } => Ok(adv(Model { index: m.index.wrapping_add(m.regs[x as int] as u16), ..m })),
        Op::FontAddr { x } => Ok(adv(Model { index: (FONT_START_LOCATION + m.regs[x as int] * 5) as u16, ..m })),
        Op::StoreBcd { x } => if m.index + 3 > 4096 {
            Err(VmError::OutOfBoundsMemoryAccess)
        } else {
            Ok(adv(Model {
                memory: m.memory
                    .update(m.index as int, m.regs[x as int] / 100)
                    .update(m.index + 1, (m.regs[x as int] % 100) / 10)
                    .update(m.index + 2, m.regs[x as int] % 10),
                ..m
            }))
        },
        Op::StoreRegs { x } => if m.index + x + 1 > 4096 {
            Err(VmError::OutOfBoundsMemoryAccess)
        } else {
            Ok(adv(Model { memory: mem_store(m.memory, m.index as int, m.regs, x + 1), ..m }))
        },
        Op::LoadRegs { x } => if m.index + x + 1 > 4096 {
            Err(VmError::OutOfBoundsMemoryAccess)
        } else {
            Ok(adv(Model { regs: regs_load(m.regs, m.memory, m.index as int, x + 1), ..m }))
        },
    }
}

/// What one call of `step` does, as a function of the machine state,
/// the wall-clock time, the key snapshot, the newly pressed key (if
/// any) and the byte the random source produced: first the timer tick;
/// then, while a blocking key read is pending, at most the completion
/// of that read; otherwise fetch, decode and execute one instruction.
pub open spec fn step_model(m: Model, now: u64, keys: u16, pressed_key: Option<u8>, rnd: u8) -> Result<Model, VmError> {
    let m1 = tick(m, now);
    match m1.awaiting_key {
        Some(x) => match pressed_key {
            Some(k) => Ok(Model { regs: m1.regs.update(x as int, k), awaiting_key: None, ..m1 }),
            None => Ok(m1),
        },
        None => if m1.pc + 1 >= 4096 {
            Err(VmError::OutOfBoundsMemoryAccess)
        } else {
            let i = spec_unpack(m1.memory[m1.pc as int], m1.memory[m1.pc as int + 1]);
            let m2 = Model { instr: i, ..m1 };
            match spec_decode(i) {
                None => Err(VmError::UnrecognizedOpcode),
                Some(op) => apply_op(m2, op, keys, rnd),
            }
        },
    }
}

/// The state a failing `step` leaves behind: the timer tick has
/// happened, and when the failure came after a successful fetch, the
/// fetched instruction is recorded; nothing else has changed.
pub open spec fn step_err_state(m: Model, now: u64) -> Model {
    let m1 = tick(m, now);
    if m1.awaiting_key is None && m1.pc + 1 < 4096 {
        Model { instr: spec_unpack(m1.memory[m1.pc as int], m1.memory[m1.pc as int + 1]), ..m1 }
    } else {
        m1
    }
}

/// The 80-byte font table: sixteen glyphs of five rows each.
pub open spec fn font_table() -> Seq<u8> {
    seq![
        0xF0u8, 0x90, 0x90, 0x90, 0xF0,
        0x20, 0x60, 0x20, 0x20, 0x70,
        0xF0, 0x10, 0xF0, 0x80, 0xF0,
        0xF0, 0x10, 0xF0, 0x10, 0xF0,
        0x90, 0x90, 0xF0, 0x10, 0x10,
        0xF0, 0x80, 0xF0, 0x10, 0xF0,
        0xF0, 0x80, 0xF0, 0x90, 0xF0,
        0xF0, 0x10, 0x20, 0x40, 0x40,
        0xF0, 0x90, 0xF0, 0x90, 0xF0,
        0xF0, 0x90, 0xF0, 0x10, 0xF0,
        0xF0, 0x90, 0xF0, 0x90, 0x90,
        0xE0, 0x90, 0xE0, 0x90, 0xE0,
        0xF0, 0x80, 0x80, 0x80, 0xF0,
        0xE0, 0x90, 0x90, 0x90, 0xE0,
        0xF0, 0x80, 0xF0, 0x80, 0xF0,
        0xF0, 0x80, 0xF0, 0x80, 0x80,
    ]
}

/// Memory as construction leaves it: the font table at its fixed
/// offset, zero everywhere else.
pub open spec fn initial_memory() -> Seq<u8> {
    Seq::new(4096, |a: int|
        if FONT_START_LOCATION <= a < FONT_START_LOCATION + 80 {
            font_table()[a - FONT_START_LOCATION]
        } else {
            0u8
        })
}

/// The machine state construction establishes.
pub open spec fn initial_model() -> Model {
    Model {
        memory: initial_memory(),
        display: Seq::new(32, |r: int| 0u64),
        fading: Seq::new(32, |r: int| 0u64),
        display_changed: false,
        pc: PROGRAM_START_LOCATION,
        instr: (0, 0, 0, 0),
        stack: Seq::empty(),
        delay_timer: 0,
        sound_timer: 0,
        last_tick: 0,
        index: 0,
        regs: Seq::new(16, |j: int| 0u8),
        awaiting_key: None,
    }
}

} // verus!
