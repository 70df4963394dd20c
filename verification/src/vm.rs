//! The executable machine and its opcode handlers.
//!
//! Every handler is specified against the ghost `Model` in `crate::model`;
//! `read_instr` composes them into one fetch-decode-execute step whose
//! whole effect is `step_model`.
use vstd::prelude::*;

use crate::model::FONT_START_LOCATION;
use crate::model::Model;
use crate::model::Op;
use crate::model::PROGRAM_START_LOCATION;
use crate::model::TICK_NANOS;
use crate::model::VmError;
use crate::model::adv;
use crate::model::apply_op;
use crate::model::draw_collision;
use crate::model::draw_display;
use crate::model::draw_fading;
use crate::model::font_table;
use crate::model::initial_model;
use crate::model::key_down;
use crate::model::kk_of;
use crate::model::mem_store;
use crate::model::nnn_of;
use crate::model::op_draw;
use crate::model::regs_load;
use crate::model::row_index;
use crate::model::shl_regs;
use crate::model::shr_regs;
use crate::model::spec_decode;
use crate::model::spec_pack;
use crate::model::spec_unpack;
use crate::model::sprite_index;
use crate::model::sprite_row_mask;
use crate::model::step_err_state;
use crate::model::step_model;
use crate::model::tick;

verus! {

/// The machine: memory, registers, call stack, timers and display.
///
/// The display rows, the fade overlay, the changed flag and the
/// registers are public so the rendering collaborator can consume them
/// between steps.
pub struct Env {
    /// Set by every draw; the renderer clears it after repainting.
    pub display_changed: bool,
    /// Per row, the bits the most recent draw flipped from set to clear.
    pub fading_pixels: [u64; 32],
    /// 32 rows of 64 pixels; bit (63 - x) of a row is column x.
    pub display: [u64; 32],
    /// Program counter.
    pub program_counter: u16,
    /// The four nibbles of the most recently fetched instruction.
    pub current_instr: (u8, u8, u8, u8),
    /// Return addresses; only the first `stack_next_pos` slots are live.
    pub stack: [u16; 16],
    /// Call depth: index of the first free stack slot.
    pub stack_next_pos: u8,
    /// Decremented at the 60 Hz cadence, floored at zero.
    pub delay_timer: u8,
    /// Beeps while nonzero; same cadence as the delay timer.
    pub sound_timer: u8,
    /// Monotonic timestamp, in nanoseconds, of the last timer decrement.
    pub last_timer_tick: u64,
    /// All 4096 bytes of memory.
    pub memory: [u8; 4096],
    /// The 16-bit index register I.
    pub index_register: u16,
    /// The sixteen 8-bit general registers V0..VF.
    pub variable_registers: [u8; 16],
    /// `Some(x)` while a blocking key read into Vx is pending.
    pub awaiting_key: Option<u8>,
}

impl View for Env {
    type V = Model;

    open spec fn view(&self) -> Model {
        Model {
            memory: self.memory@,
            display: self.display@,
            fading: self.fading_pixels@,
            display_changed: self.display_changed,
            pc: self.program_counter,
            instr: self.current_instr,
            stack: self.stack@.take(self.stack_next_pos as int),
            delay_timer: self.delay_timer,
            sound_timer: self.sound_timer,
            last_tick: self.last_timer_tick,
            index: self.index_register,
            regs: self.variable_registers@,
            awaiting_key: self.awaiting_key,
        }
    }
}

/// Splits two instruction bytes into their four 4-bit nibbles, most
/// significant first.
pub fn unpack(a: u8, b: u8) -> (r: (u8, u8, u8, u8))
    ensures
        r == spec_unpack(a, b),
        r.0 < 16 && r.1 < 16 && r.2 < 16 && r.3 < 16,
{
    proof {
        lemma_nibble_bounds(a);
        lemma_nibble_bounds(b);
    }
    ((a & 0xF0) >> 4, a & 0x0F, (b & 0xF0) >> 4, b & 0x0F)
}

/// Reassembles four nibbles into one 16-bit word.
pub fn pack(a: u8, b: u8, c: u8, d: u8) -> (r: u16)
    ensures
        r == spec_pack(a, b, c, d),
        a < 16 && b < 16 && c < 16 && d < 16
            ==> r == (a as int) * 4096 + (b as int) * 256 + (c as int) * 16 + (d as int),
{
    proof {
        lemma_pack_arith(a, b, c, d);
    }
    ((a as u16) << 12) | ((b as u16) << 8) | ((c as u16) << 4) | (d as u16)
}

proof fn lemma_nibble_bounds(a: u8)
    ensures
        (a & 0xF0) >> 4 < 16,
        a & 0x0F < 16,
{
    assert((a & 0xF0) >> 4 < 16 && a & 0x0F < 16) by (bit_vector);
}

proof fn lemma_pack_arith(a: u8, b: u8, c: u8, d: u8)
    ensures
        a < 16 && b < 16 && c < 16 && d < 16
            ==> spec_pack(a, b, c, d) == (a as int) * 4096 + (b as int) * 256 + (c as int) * 16 + (d as int),
{
    assert(a < 16 && b < 16 && c < 16 && d < 16
        ==> ((a as u16) << 12) | ((b as u16) << 8) | ((c as u16) << 4) | (d as u16)
            == a as u16 * 4096 + b as u16 * 256 + c as u16 * 16 + d as u16) by (bit_vector);
}

/// Relies on `rand::random`: one byte from the thread-local random
/// generator. Nothing is assumed about its value.
#[verifier::external_body]
fn random_byte() -> u8 {
    rand::random::<u8>()
}

impl Env {
    /// Structural well-formedness: the call depth stays within the
    /// 16-slot stack, and decoded operands are genuine nibbles.
    pub open spec fn wf(self) -> bool {
        &&& self.stack_next_pos <= 16
        &&& self.current_instr.0 < 16
        &&& self.current_instr.1 < 16
        &&& self.current_instr.2 < 16
        &&& self.current_instr.3 < 16
        &&& (self.awaiting_key matches Some(x) ==> x < 16)
    }

    /// The ghost image of a well-formed machine is itself well-formed:
    /// what `wf` says of the fields carries over to the model's sizes
    /// and operand bounds.
    pub proof fn lemma_wf_view(self)
        requires
            self.wf(),
        ensures
            self@.wf(),
    {
    }

    /// A fresh machine: everything zeroed, the program counter at the
    /// program region, the font table in place.
    pub fn new() -> (r: Env)
        ensures
            r.wf(),
            r@ == initial_model(),
    {
        let mut env = Env {
            memory: [0; 4096],
            display: [0; 32],
            display_changed: false,
            program_counter: PROGRAM_START_LOCATION,
            index_register: 0,
            stack: [0; 16],
            delay_timer: 0,
            sound_timer: 0,
            last_timer_tick: 0,
            stack_next_pos: 0,
            variable_registers: [0; 16],
            current_instr: (0, 0, 0, 0),
            fading_pixels: [0; 32],
            awaiting_key: None,
        };

        let fonts: [u8; 80] = [
            0xF0, 0x90, 0x90, 0x90, 0xF0,
            0x20, 0x60, 0x20, 0x20, 0x70,
            0xF0, 0x10, 0xF0, 0x80, 0xF0,
            0xF0, 0x10, 0xF0, 0x10, 0xF0,
            0x90, 0x90, 0xF0, 0x10, 0x10,
            0xF0, 0x80, 0xF0, 0x10, 0xF0,
            0xF0, 0x80, 0xF0, 0x90, 0xF0,
            0xF0, 0x10, 0x20, 0x40, 0x40,
            0xF0, 0x90, 0xF0, 0x90, 0xF0,
            0xF0, 0x90, 0xF0, 0x10, 0xF0,
            0xF0, 0x90, 0xF0, 0x90, 0x90,
            0xE0, 0x90, 0xE0, 0x90, 0xE0,
            0xF0, 0x80, 0x80, 0x80, 0xF0,
            0xE0, 0x90, 0x90, 0x90, 0xE0,
            0xF0, 0x80, 0xF0, 0x80, 0xF0,
            0xF0, 0x80, 0xF0, 0x80, 0x80,
        ];
        proof {
            assert(fonts@ =~= font_table());
            assert(env@ =~= (Model { memory: env@.memory, ..initial_model() }));
            assert(env.memory@ =~= font_progress(env.memory@, 0));
        }
        let ghost mem0 = env.memory@;

        let mut i: usize = 0;
        while i < 80
            invariant
                env.wf(),
                i <= 80,
                fonts@ == font_table(),
                env.memory@ == font_progress(mem0, i as int),
                env@ == (Model { memory: env@.memory, ..initial_model() }),
                forall|a: int| 0 <= a < 4096 ==> mem0[a] == 0u8,
            decreases 80 - i,
        {
            env.memory[FONT_START_LOCATION as usize + i] = fonts[i];
            i += 1;
            proof {
                assert(env.memory@ =~= font_progress(mem0, i as int));
            }
        }
        proof {
            assert(env@.memory =~= initial_model().memory);
            assert(env@ =~= initial_model());
        }
        env
    }

    /// Whether the audio collaborator should be sounding the buzzer.
    pub fn is_beeping(&self) -> (r: bool)
        ensures
            r == (self@.sound_timer > 0),
    {
        self.sound_timer > 0
    }

    /// Copies the program into memory at the program region and points
    /// the program counter at its first instruction.
    pub fn load_into_memory(&mut self, rom: &Vec<u8>)
        requires
            old(self).wf(),
            rom@.len() <= 4096 - PROGRAM_START_LOCATION,
        ensures
            final(self).wf(),
            final(self)@ == (Model {
                pc: PROGRAM_START_LOCATION,
                memory: loaded_memory(old(self)@.memory, rom@),
                ..old(self)@
            }),
    {
        self.program_counter = PROGRAM_START_LOCATION;
        let ghost m0 = self@;
        let mut i: usize = 0;
        while i < rom.len()
            invariant
                self.wf(),
                i <= rom@.len(),
                rom@.len() <= 4096 - PROGRAM_START_LOCATION,
                self.memory@ == load_progress(m0.memory, rom@, i as int),
                self@ == (Model { memory: self@.memory, ..m0 }),
            decreases rom@.len() - i,
        {
            self.memory[PROGRAM_START_LOCATION as usize + i] = rom[i];
            i += 1;
            proof {
                assert(self.memory@ =~= load_progress(m0.memory, rom@, i as int));
            }
        }
        proof {
            assert(self.memory@ =~= loaded_memory(m0.memory, rom@));
            assert(self@ =~= (Model { pc: PROGRAM_START_LOCATION, memory: loaded_memory(m0.memory, rom@), ..m0 }));
        }
    }

    /// One 60 Hz timer tick, driven by the caller's monotonic clock.
    pub fn tick_timers(&mut self, now_nanos: u64)
        requires
            old(self).wf(),
        ensures
            final(self).wf(),
            final(self)@ == tick(old(self)@, now_nanos),
    {
        if now_nanos >= self.last_timer_tick && now_nanos - self.last_timer_tick >= TICK_NANOS {
            if self.delay_timer > 0 {
                self.delay_timer = self.delay_timer - 1;
            }
            if self.sound_timer > 0 {
                self.sound_timer = self.sound_timer - 1;
            }
            self.last_timer_tick = now_nanos;
        }
    }

    /// 00E0: every display row goes dark.
    pub fn display_clear(&mut self)
        requires
            old(self).wf(),
        ensures
            final(self).wf(),
            final(self)@ == (Model { display: Seq::new(32, |r: int| 0u64), ..old(self)@ }),
    {
        self.display = [0; 32];
        proof {
            assert(self.display@ =~= Seq::new(32, |r: int| 0u64));
        }
    }

    /// 00EE: pop the stack into the program counter, or report a fatal
    /// underflow when no outer subroutine exists.
    pub fn subroutine_return(&mut self) -> (r: Result<(), VmError>)
        requires
            old(self).wf(),
        ensures
            final(self).wf(),
            (match r {
                Ok(()) => old(self)@.stack.len() > 0
                    && final(self)@ == (Model {
                        pc: old(self)@.stack.last(),
                        stack: old(self)@.stack.drop_last(),
                        ..old(self)@
                    }),
                Err(e) => e == VmError::StackUnderflow
                    && old(self)@.stack.len() == 0
                    && final(self)@ == old(self)@,
            }),
    {
        if self.stack_next_pos > 0 {
            self.stack_next_pos = self.stack_next_pos - 1;
            self.program_counter = self.stack[self.stack_next_pos as usize];
            proof {
                assert(self@.stack =~= old(self)@.stack.drop_last());
            }
            Ok(())
        } else {
            Err(VmError::StackUnderflow)
        }
    }

    /// 1nnn: jump. The target is pre-decremented by the width of one
    /// instruction so the dispatcher's uniform advance lands on it.
    pub fn goto(&mut self)
        requires
            old(self).wf(),
        ensures
            final(self).wf(),
            final(self)@ == (Model { pc: nnn_of(old(self)@.instr).wrapping_sub(2), ..old(self)@ }),
    {
        let (_, b, c, d) = self.current_instr;
        let nnn = (b as u16) * 256 + (c as u16) * 16 + (d as u16);
        self.program_counter = nnn.wrapping_sub(2);
    }

    /// 2nnn: push the call site and jump to the subroutine, or report a
    /// fatal overflow when sixteen calls are already nested.
    pub fn call_subroutine(&mut self) -> (r: Result<(), VmError>)
        requires
            old(self).wf(),
        ensures
            final(self).wf(),
            (match r {
                Ok(()) => old(self)@.stack.len() < 16
                    && final(self)@ == (Model {
                        pc: nnn_of(old(self)@.instr).wrapping_sub(2),
                        stack: old(self)@.stack.push(old(self)@.pc),
                        ..old(self)@
                    }),
                Err(e) => e == VmError::StackOverflow
                    && old(self)@.stack.len() == 16
                    && final(self)@ == old(self)@,
            }),
    {
        if self.stack_next_pos < 16 {
            let (_, b, c, d) = self.current_instr;
            let nnn = (b as u16) * 256 + (c as u16) * 16 + (d as u16);
            self.stack[self.stack_next_pos as usize] = self.program_counter;
            self.stack_next_pos = self.stack_next_pos + 1;
            self.program_counter = nnn.wrapping_sub(2);
            proof {
                assert(self@.stack =~= old(self)@.stack.push(old(self)@.pc));
            }
            Ok(())
        } else {
            Err(VmError::StackOverflow)
        }
    }

    /// 3xkk: skip the next instruction when Vx equals the immediate.
    pub fn skip_if_register_equals_value(&mut self)
        requires
            old(self).wf(),
        ensures
            final(self).wf(),
            final(self)@ == (Model {
                pc: if old(self)@.regs[old(self)@.instr.1 as int] == kk_of(old(self)@.instr) {
                    old(self)@.pc.wrapping_add(2)
                } else {
                    old(self)@.pc
                },
                ..old(self)@
            }),
    {
        let (_, x, c, d) = self.current_instr;
        let kk = c * 16 + d;
        if self.variable_registers[x as usize] == kk {
            self.program_counter = self.program_counter.wrapping_add(2);
        }
    }

    /// 4xkk: skip the next instruction when Vx differs from the immediate.
    pub fn skip_if_register_not_equals_value(&mut self)
        requires
            old(self).wf(),
        ensures
            final(self).wf(),
            final(self)@ == (Model {
                pc: if old(self)@.regs[old(self)@.instr.1 as int] != kk_of(old(self)@.instr) {
                    old(self)@.pc.wrapping_add(2)
                } else {
                    old(self)@.pc
                },
                ..old(self)@
            }),
    {
        let (_, x, c, d) = self.current_instr;
        let kk = c * 16 + d;
        if self.variable_registers[x as usize] != kk {
            self.program_counter = self.program_counter.wrapping_add(2);
        }
    }

    /// 5xy0: skip the next instruction when Vx equals Vy.
    pub fn skip_if_registers_equal(&mut self)
        requires
            old(self).wf(),
        ensures
            final(self).wf(),
            final(self)@ == (Model {
                pc: if old(self)@.regs[old(self)@.instr.1 as int] == old(self)@.regs[old(self)@.instr.2 as int] {
                    old(self)@.pc.wrapping_add(2)
                } else {
                    old(self)@.pc
                },
                ..old(self)@
            }),
    {
        let (_, x, y, _) = self.current_instr;
        if self.variable_registers[x as usize] == self.variable_registers[y as usize] {
            self.program_counter = self.program_counter.wrapping_add(2);
        }
    }

    /// 9xy0: skip the next instruction when Vx differs from Vy.
    pub fn skip_if_registers_not_equal(&mut self)
        requires
            old(self).wf(),
        ensures
            final(self).wf(),
            final(self)@ == (Model {
                pc: if old(self)@.regs[old(self)@.instr.1 as int] != old(self)@.regs[old(self)@.instr.2 as int] {
                    old(self)@.pc.wrapping_add(2)
                } else {
                    old(self)@.pc
                },
                ..old(self)@
            }),
    {
        let (_, x, y, _) = self.current_instr;
        if self.variable_registers[x as usize] != self.variable_registers[y as usize] {
            self.program_counter = self.program_counter.wrapping_add(2);
        }
    }

    /// 6xkk: Vx receives the immediate.
    pub fn register_set_value(&mut self)
        requires
            old(self).wf(),
        ensures
            final(self).wf(),
            final(self)@ == (Model {
                regs: old(self)@.regs.update(old(self)@.instr.1 as int, kk_of(old(self)@.instr)),
                ..old(self)@
            }),
    {
        let (_, x, c, d) = self.current_instr;
        let kk = c * 16 + d;
        self.variable_registers[x as usize] = kk;
    }

    /// 7xkk: Vx gains the immediate, wrapping modulo 256, flag untouched.
    pub fn register_add_value(&mut self)
        requires
            old(self).wf(),
        ensures
            final(self).wf(),
            final(self)@ == (Model {
                regs: old(self)@.regs.update(
                    old(self)@.instr.1 as int,
                    old(self)@.regs[old(self)@.instr.1 as int].wrapping_add(kk_of(old(self)@.instr)),
                ),
                ..old(self)@
            }),
    {
        let (_, x, c, d) = self.current_instr;
        let kk = c * 16 + d;
        let vx = self.variable_registers[x as usize];
        self.variable_registers[x as usize] = vx.wrapping_add(kk);
    }

    /// 8xy0: Vx receives Vy.
    pub fn register_set_register(&mut self)
        requires
            old(self).wf(),
        ensures
            final(self).wf(),
            final(self)@ == (Model {
                regs: old(self)@.regs.update(
                    old(self)@.instr.1 as int,
                    old(self)@.regs[old(self)@.instr.2 as int],
                ),
                ..old(self)@
            }),
    {
        let (_, x, y, _) = self.current_instr;
        self.variable_registers[x as usize] = self.variable_registers[y as usize];
    }

    /// 8xy1: Vx receives Vx | Vy.
    pub fn register_or_register(&mut self)
        requires
            old(self).wf(),
        ensures
            final(self).wf(),
            final(self)@ == (Model {
                regs: old(self)@.regs.update(
                    old(self)@.instr.1 as int,
                    old(self)@.regs[old(self)@.instr.1 as int] | old(self)@.regs[old(self)@.instr.2 as int],
                ),
                ..old(self)@
            }),
    {
        let (_, x, y, _) = self.current_instr;
        let vx = self.variable_registers[x as usize];
        let vy = self.variable_registers[y as usize];
        self.variable_registers[x as usize] = vx | vy;
    }

    /// 8xy2: Vx receives Vx & Vy.
    pub fn register_and_register(&mut self)
        requires
            old(self).wf(),
        ensures
            final(self).wf(),
            final(self)@ == (Model {
                regs: old(self)@.regs.update(
                    old(self)@.instr.1 as int,
                    old(self)@.regs[old(self)@.instr.1 as int] & old(self)@.regs[old(self)@.instr.2 as int],
                ),
                ..old(self)@
            }),
    {
        let (_, x, y, _) = self.current_instr;
        let vx = self.variable_registers[x as usize];
        let vy = self.variable_registers[y as usize];
        self.variable_registers[x as usize] = vx & vy;
    }

    /// 8xy3: Vx receives Vx ^ Vy.
    pub fn register_xor_register(&mut self)
        requires
            old(self).wf(),
        ensures
            final(self).wf(),
            final(self)@ == (Model {
                regs: old(self)@.regs.update(
                    old(self)@.instr.1 as int,
                    old(self)@.regs[old(self)@.instr.1 as int] ^ old(self)@.regs[old(self)@.instr.2 as int],
                ),
                ..old(self)@
            }),
    {
        let (_, x, y, _) = self.current_instr;
        let vx = self.variable_registers[x as usize];
        let vy = self.variable_registers[y as usize];
        self.variable_registers[x as usize] = vx ^ vy;
    }

    /// 8xy4: Vx receives Vx + Vy modulo 256; VF reports the carry.
    pub fn register_add_register(&mut self)
        requires
            old(self).wf(),
        ensures
            final(self).wf(),
            final(self)@ == (Model {
                regs: old(self)@.regs
                    .update(
                        old(self)@.instr.1 as int,
                        old(self)@.regs[old(self)@.instr.1 as int].wrapping_add(old(self)@.regs[old(self)@.instr.2 as int]),
                    )
                    .update(
                        15,
                        if old(self)@.regs[old(self)@.instr.1 as int] + old(self)@.regs[old(self)@.instr.2 as int] > 255 {
                            1u8
                        } else {
                            0u8
                        },
                    ),
                ..old(self)@
            }),
    {
        let (_, x, y, _) = self.current_instr;
        let vx = self.variable_registers[x as usize];
        let vy = self.variable_registers[y as usize];
        self.variable_registers[x as usize] = vx.wrapping_add(vy);
        self.variable_registers[15] = if vx as u16 + vy as u16 > 255 { 1 } else { 0 };
    }

    /// 8xy5: Vx receives Vx - Vy modulo 256; VF is 1 exactly when no
    /// borrow was needed.
    pub fn register_sub_register(&mut self)
        requires
            old(self).wf(),
        ensures
            final(self).wf(),
            final(self)@ == (Model {
                regs: old(self)@.regs
                    .update(
                        old(self)@.instr.1 as int,
                        old(self)@.regs[old(self)@.instr.1 as int].wrapping_sub(old(self)@.regs[old(self)@.instr.2 as int]),
                    )
                    .update(
                        15,
                        if old(self)@.regs[old(self)@.instr.1 as int] >= old(self)@.regs[old(self)@.instr.2 as int] {
                            1u8
                        } else {
                            0u8
                        },
                    ),
                ..old(self)@
            }),
    {
        let (_, x, y, _) = self.current_instr;
        let vx = self.variable_registers[x as usize];
        let vy = self.variable_registers[y as usize];
        self.variable_registers[x as usize] = vx.wrapping_sub(vy);
        self.variable_registers[15] = if vx >= vy { 1 } else { 0 };
    }

    /// 8xy7: Vx receives Vy - Vx modulo 256; VF is 1 exactly when no
    /// borrow was needed.
    pub fn register_set_register_sub_register(&mut self)
        requires
            old(self).wf(),
        ensures
            final(self).wf(),
            final(self)@ == (Model {
                regs: old(self)@.regs
                    .update(
                        old(self)@.instr.1 as int,
                        old(self)@.regs[old(self)@.instr.2 as int].wrapping_sub(old(self)@.regs[old(self)@.instr.1 as int]),
                    )
                    .update(
                        15,
                        if old(self)@.regs[old(self)@.instr.2 as int] >= old(self)@.regs[old(self)@.instr.1 as int] {
                            1u8
                        } else {
                            0u8
                        },
                    ),
                ..old(self)@
            }),
    {
        let (_, x, y, _) = self.current_instr;
        let vx = self.variable_registers[x as usize];
        let vy = self.variable_registers[y as usize];
        self.variable_registers[x as usize] = vy.wrapping_sub(vx);
        self.variable_registers[15] = if vy >= vx { 1 } else { 0 };
    }

    /// 8xy6: VF receives the low bit of Vx, then Vx shifts right once.
    /// When x is 15 the shift reads the freshly written flag, as the
    /// write order dictates.
    pub fn register_right_shift(&mut self)
        requires
            old(self).wf(),
        ensures
            final(self).wf(),
            final(self)@ == (Model {
                regs: shr_regs(old(self)@.regs, old(self)@.instr.1 as int),
                ..old(self)@
            }),
    {
        let (_, x, _, _) = self.current_instr;
        self.variable_registers[15] = self.variable_registers[x as usize] & 1;
        let flagged = self.variable_registers[x as usize];
        self.variable_registers[x as usize] = flagged >> 1;
    }

    /// 8xyE: VF receives the high bit of Vx, then Vx shifts left once,
    /// dropping into the flag-first write order exactly as the right
    /// shift does.
    pub fn register_left_shift(&mut self)
        requires
            old(self).wf(),
        ensures
            final(self).wf(),
            final(self)@ == (Model {
                regs: shl_regs(old(self)@.regs, old(self)@.instr.1 as int),
                ..old(self)@
            }),
    {
        let x = self.current_instr.1;
        self.variable_registers[15] = (self.variable_registers[x as usize] >> 7) & 1;
        let flagged = self.variable_registers[x as usize];
        self.variable_registers[x as usize] = flagged << 1;
    }

    /// Annn: the index register receives the address.
    pub fn set_index_register(&mut self)
        requires
            old(self).wf(),
        ensures
            final(self).wf(),
            final(self)@ == (Model { index: nnn_of(old(self)@.instr), ..old(self)@ }),
    {
        let (_, b, c, d) = self.current_instr;
        self.index_register = (b as u16) * 256 + (c as u16) * 16 + (d as u16);
    }

    /// Bnnn: jump to V0 + nnn, with the same pre-decrement as 1nnn.
    pub fn goto_register_zero_plus_value(&mut self)
        requires
            old(self).wf(),
        ensures
            final(self).wf(),
            final(self)@ == (Model {
                pc: ((old(self)@.regs[0] + nnn_of(old(self)@.instr)) as u16).wrapping_sub(2),
                ..old(self)@
            }),
    {
        let (_, b, c, d) = self.current_instr;
        let nnn = (b as u16) * 256 + (c as u16) * 16 + (d as u16);
        let target = self.variable_registers[0] as u16 + nnn;
        self.program_counter = target.wrapping_sub(2);
    }

    /// Cxkk: Vx receives a random byte masked by the immediate. The
    /// byte comes from the trusted random source; the contract says
    /// only that some byte was masked.
    pub fn set_register_rand_and_value(&mut self)
        requires
            old(self).wf(),
        ensures
            final(self).wf(),
            exists|n: u8|
                final(self)@ == (Model {
                    regs: old(self)@.regs.update(old(self)@.instr.1 as int, #[trigger] (n & kk_of(old(self)@.instr))),
                    ..old(self)@
                }),
    {
        let n = random_byte();
        self.apply_masked_random(n);
    }

    /// The deterministic half of Cxkk: once the random byte is known,
    /// Vx receives exactly that byte masked by the immediate.
    pub fn apply_masked_random(&mut self, n: u8)
        requires
            old(self).wf(),
        ensures
            final(self).wf(),
            final(self)@ == (Model {
                regs: old(self)@.regs.update(old(self)@.instr.1 as int, n & kk_of(old(self)@.instr)),
                ..old(self)@
            }),
    {
        let (_, x, c, d) = self.current_instr;
        let kk = c * 16 + d;
        self.variable_registers[x as usize] = n & kk;
    }

    /// Whether logical key `key` is pressed in the snapshot `keys`;
    /// keys 16 and above do not exist and read as released.
    pub fn get_hex_key_state(&self, key: u8, keys: u16) -> (r: bool)
        ensures
            r == key_down(keys, key),
    {
        if key < 16 {
            (keys >> (key as u16)) & 1 == 1
        } else {
            false
        }
    }

    /// Ex9E: skip the next instruction when the key named by Vx is
    /// pressed in the snapshot.
    pub fn skip_if_key_pressed_equals_register(&mut self, keys: u16)
        requires
            old(self).wf(),
        ensures
            final(self).wf(),
            final(self)@ == (Model {
                pc: if key_down(keys, old(self)@.regs[old(self)@.instr.1 as int]) {
                    old(self)@.pc.wrapping_add(2)
                } else {
                    old(self)@.pc
                },
                ..old(self)@
            }),
    {
        let x = self.current_instr.1;
        if self.get_hex_key_state(self.variable_registers[x as usize], keys) {
            self.program_counter = self.program_counter.wrapping_add(2);
        }
    }

    /// ExA1: skip the next instruction when the key named by Vx is not
    /// pressed in the snapshot.
    pub fn skip_if_key_pressed_not_equals_register(&mut self, keys: u16)
        requires
            old(self).wf(),
        ensures
            final(self).wf(),
            final(self)@ == (Model {
                pc: if !key_down(keys, old(self)@.regs[old(self)@.instr.1 as int]) {
                    old(self)@.pc.wrapping_add(2)
                } else {
                    old(self)@.pc
                },
                ..old(self)@
            }),
    {
        let x = self.current_instr.1;
        if !self.get_hex_key_state(self.variable_registers[x as usize], keys) {
            self.program_counter = self.program_counter.wrapping_add(2);
        }
    }

    /// Fx07: Vx receives the delay timer.
    pub fn set_register_to_delay_timer(&mut self)
        requires
            old(self).wf(),
        ensures
            final(self).wf(),
            final(self)@ == (Model {
                regs: old(self)@.regs.update(old(self)@.instr.1 as int, old(self)@.delay_timer),
                ..old(self)@
            }),
    {
        let x = self.current_instr.1;
        self.variable_registers[x as usize] = self.delay_timer;
    }

    /// Fx0A: record that a blocking key read into Vx is pending. The
    /// driving loop keeps stepping; the read completes on the first
    /// step that reports a newly pressed key.
    pub fn set_register_to_blocking_key(&mut self)
        requires
            old(self).wf(),
        ensures
            final(self).wf(),
            final(self)@ == (Model { awaiting_key: Some(old(self)@.instr.1), ..old(self)@ }),
    {
        let x = self.current_instr.1;
        self.awaiting_key = Some(x);
    }

    /// Fx15: the delay timer receives Vx.
    pub fn set_delay_timer_to_register(&mut self)
        requires
            old(self).wf(),
        ensures
            final(self).wf(),
            final(self)@ == (Model {
                delay_timer: old(self)@.regs[old(self)@.instr.1 as int],
                ..old(self)@
            }),
    {
        let x = self.current_instr.1;
        self.delay_timer = self.variable_registers[x as usize];
    }

    /// Fx18: the sound timer receives Vx.
    pub fn set_sound_timer_to_register(&mut self)
        requires
            old(self).wf(),
        ensures
            final(self).wf(),
            final(self)@ == (Model {
                sound_timer: old(self)@.regs[old(self)@.instr.1 as int],
                ..old(self)@
            }),
    {
        let x = self.current_instr.1;
        self.sound_timer = self.variable_registers[x as usize];
    }

    /// Fx1E: the index register gains Vx, wrapping modulo 65536.
    pub fn add_register_to_index_register(&mut self)
        requires
            old(self).wf(),
        ensures
            final(self).wf(),
            final(self)@ == (Model {
                index: old(self)@.index.wrapping_add(old(self)@.regs[old(self)@.instr.1 as int] as u16),
                ..old(self)@
            }),
    {
        let x = self.current_instr.1;
        let vx = self.variable_registers[x as usize];
        self.index_register = self.index_register.wrapping_add(vx as u16);
    }

    /// Fx29: the index register receives the font address of the hex
    /// digit in Vx; each glyph is five bytes.
    pub fn set_index_register_to_sprite_location_of_register(&mut self)
        requires
            old(self).wf(),
        ensures
            final(self).wf(),
            final(self)@ == (Model {
                index: (FONT_START_LOCATION + old(self)@.regs[old(self)@.instr.1 as int] * 5) as u16,
                ..old(self)@
            }),
    {
        let x = self.current_instr.1;
        let vx = self.variable_registers[x as usize];
        self.index_register = FONT_START_LOCATION + (vx as u16) * 5;
    }

    /// Fx33: the three decimal digits of Vx land at I, I+1 and I+2, or
    /// the step is fatal when that range leaves memory.
    pub fn bcd_of_register_in_index_register(&mut self) -> (r: Result<(), VmError>)
        requires
            old(self).wf(),
        ensures
            final(self).wf(),
            (match r {
                Ok(()) => old(self)@.index + 3 <= 4096
                    && final(self)@ == (Model {
                        memory: old(self)@.memory
                            .update(old(self)@.index as int, old(self)@.regs[old(self)@.instr.1 as int] / 100)
                            .update(old(self)@.index + 1, (old(self)@.regs[old(self)@.instr.1 as int] % 100) / 10)
                            .update(old(self)@.index + 2, old(self)@.regs[old(self)@.instr.1 as int] % 10),
                        ..old(self)@
                    }),
                Err(e) => e == VmError::OutOfBoundsMemoryAccess
                    && old(self)@.index + 3 > 4096
                    && final(self)@ == old(self)@,
            }),
    {
        let i = self.index_register as usize;
        if i + 3 > 4096 {
            return Err(VmError::OutOfBoundsMemoryAccess);
        }
        let v = self.variable_registers[self.current_instr.1 as usize];
        self.memory[i] = v / 100;
        self.memory[i + 1] = v % 100 / 10;
        self.memory[i + 2] = v % 10;
        Ok(())
    }

    /// Fx55: registers V0..=Vx land in memory starting at I, or the
    /// step is fatal when that range leaves memory.
    pub fn store_registers_up_to_in_memory(&mut self) -> (r: Result<(), VmError>)
        requires
            old(self).wf(),
        ensures
            final(self).wf(),
            (match r {
                Ok(()) => old(self)@.index + old(self)@.instr.1 + 1 <= 4096
                    && final(self)@ == (Model {
                        memory: mem_store(
                            old(self)@.memory,
                            old(self)@.index as int,
                            old(self)@.regs,
                            old(self)@.instr.1 + 1,
                        ),
                        ..old(self)@
                    }),
                Err(e) => e == VmError::OutOfBoundsMemoryAccess
                    && old(self)@.index + old(self)@.instr.1 + 1 > 4096
                    && final(self)@ == old(self)@,
            }),
    {
        let x = self.current_instr.1;
        let i = self.index_register as usize;
        if i + (x as usize) + 1 > 4096 {
            return Err(VmError::OutOfBoundsMemoryAccess);
        }
        let ghost m0 = self@;
        let mut j: usize = 0;
        while j < (x as usize) + 1
            invariant
                self.wf(),
                j <= x as usize + 1,
                x < 16,
                i == m0.index as int,
                i + x + 1 <= 4096,
                self.memory@ == mem_store(m0.memory, m0.index as int, m0.regs, j as int),
                self@ == (Model { memory: self@.memory, ..m0 }),
            decreases x as usize + 1 - j,
        {
            self.memory[i + j] = self.variable_registers[j];
            j += 1;
            proof {
                assert(self.memory@ =~= mem_store(m0.memory, m0.index as int, m0.regs, j as int));
            }
        }
        Ok(())
    }

    /// Fx65: registers V0..=Vx are loaded from memory starting at I, or
    /// the step is fatal when that range leaves memory.
    pub fn loads_registers_up_to_in_memory(&mut self) -> (r: Result<(), VmError>)
        requires
            old(self).wf(),
        ensures
            final(self).wf(),
            (match r {
                Ok(()) => old(self)@.index + old(self)@.instr.1 + 1 <= 4096
                    && final(self)@ == (Model {
                        regs: regs_load(
                            old(self)@.regs,
                            old(self)@.memory,
                            old(self)@.index as int,
                            old(self)@.instr.1 + 1,
                        ),
                        ..old(self)@
                    }),
                Err(e) => e == VmError::OutOfBoundsMemoryAccess
                    && old(self)@.index + old(self)@.instr.1 + 1 > 4096
                    && final(self)@ == old(self)@,
            }),
    {
        let x = self.current_instr.1;
        let i = self.index_register as usize;
        if i + (x as usize) + 1 > 4096 {
            return Err(VmError::OutOfBoundsMemoryAccess);
        }
        let ghost m0 = self@;
        let mut j: usize = 0;
        while j < (x as usize) + 1
            invariant
                self.wf(),
                j <= x as usize + 1,
                x < 16,
                i == m0.index as int,
                i + x + 1 <= 4096,
                self.variable_registers@ == regs_load(m0.regs, m0.memory, m0.index as int, j as int),
                self@ == (Model { regs: self@.regs, ..m0 }),
            decreases x as usize + 1 - j,
        {
            self.variable_registers[j] = self.memory[i + j];
            j += 1;
            proof {
                assert(self.variable_registers@ =~= regs_load(m0.regs, m0.memory, m0.index as int, j as int));
            }
        }
        Ok(())
    }

    /// Dxyn: composite an n-row sprite from memory at I onto the
    /// display at (Vx, Vy) by XOR. Coordinates wrap around the display
    /// edges, and so do sprite rows past the bottom; columns shifted
    /// past the right edge are dropped. VF reports whether any pixel
    /// went from set to clear; the step is fatal when the sprite bytes
    /// would be read from beyond memory.
    pub fn draw_sprite(&mut self) -> (r: Result<(), VmError>)
        requires
            old(self).wf(),
        ensures
            final(self).wf(),
            (match r {
                Ok(()) => op_draw(old(self)@) == Ok::<Model, VmError>(final(self)@),
                Err(e) => op_draw(old(self)@) == Err::<Model, VmError>(e)
                    && final(self)@ == old(self)@,
            }),
    {
        let (_, xn, yn, h) = self.current_instr;
        let xv = self.variable_registers[xn as usize];
        let yv = self.variable_registers[yn as usize];
        let idx = self.index_register as usize;
        if idx + (h as usize) > 4096 {
            return Err(VmError::OutOfBoundsMemoryAccess);
        }
        let ghost m0 = self@;
        let mut collided = false;
        let mut i: usize = 0;
        while i < h as usize
            invariant
                self.wf(),
                i <= h as usize,
                h < 16,
                xv == m0.regs[m0.instr.1 as int],
                yv == m0.regs[m0.instr.2 as int],
                h == m0.instr.3,
                idx == m0.index,
                idx + h <= 4096,
                self.display@ == draw_display(m0.memory, m0.display, m0.index, xv, yv, i as int),
                self.fading_pixels@ == draw_fading(m0.memory, m0.display, m0.fading, m0.index, xv, yv, i as int),
                collided == draw_collision(m0.memory, m0.display, m0.index, xv, yv, i as int),
                self@ == (Model { display: self@.display, fading: self@.fading, ..m0 }),
            decreases h as usize - i,
        {
            let b = self.memory[idx + i];
            let row = ((b as u64) << 56) >> ((xv as u64) % 64);
            let yy = (yv as usize) % 32;
            let rix = if yy + i < 32 { yy + i } else { yy + i - 32 };
            proof {
                assert(rix as int == row_index(yv, i as int));
                assert(sprite_index(yv, rix as int) == i as int);
                assert(row == sprite_row_mask(m0.memory[idx + i], xv));
                assert(self.display@[rix as int] == m0.display[rix as int]);
            }
            let fad = self.display[rix] & row;
            self.fading_pixels[rix] = fad;
            if fad != 0 {
                collided = true;
            }
            let d = self.display[rix];
            self.display[rix] = d ^ row;
            i += 1;
            proof {
                assert forall|r: int| 0 <= r < 32 implies
                    self.display@[r] == draw_display(m0.memory, m0.display, m0.index, xv, yv, i as int)[r]
                by {
                    assert(row_index(yv, sprite_index(yv, r)) == r);
                }
                assert(self.display@ =~= draw_display(m0.memory, m0.display, m0.index, xv, yv, i as int));
                assert forall|r: int| 0 <= r < 32 implies
                    self.fading_pixels@[r] == draw_fading(m0.memory, m0.display, m0.fading, m0.index, xv, yv, i as int)[r]
                by {
                    assert(row_index(yv, sprite_index(yv, r)) == r);
                }
                assert(self.fading_pixels@ =~= draw_fading(m0.memory, m0.display, m0.fading, m0.index, xv, yv, i as int));
            }
        }
        self.display_changed = true;
        self.variable_registers[15] = if collided { 1 } else { 0 };
        proof {
            assert(self@ =~= (match op_draw(m0) {
                Ok(d) => d,
                Err(_) => m0,
            }));
        }
        Ok(())
    }

    /// One fetch-decode-execute step, driven from outside with the
    /// current monotonic time in nanoseconds, a snapshot of the sixteen
    /// keypad keys (bit k set means key k is down) and the key that
    /// newly went down since the previous step, if any.
    ///
    /// The whole effect is `step_model`: first the 60 Hz timer tick;
    /// then, while a blocking key read is pending, at most the
    /// completion of that read; otherwise one instruction is fetched at
    /// PC, decoded and executed. Every fatal condition is reported as
    /// the error `step_model` prescribes, leaving `step_err_state`
    /// behind.
    pub fn read_instr(&mut self, now_nanos: u64, keys: u16, pressed_key: Option<u8>) -> (r: Result<(), VmError>)
        requires
            old(self).wf(),
            pressed_key matches Some(k) ==> k < 16,
        ensures
            final(self).wf(),
            (match r {
                Ok(()) => exists|rnd: u8|
                    step_model(old(self)@, now_nanos, keys, pressed_key, rnd)
                        == Ok::<Model, VmError>(final(self)@),
                Err(e) => step_model(old(self)@, now_nanos, keys, pressed_key, 0)
                        == Err::<Model, VmError>(e)
                    && final(self)@ == step_err_state(old(self)@, now_nanos),
            }),
    {
        let ghost m0 = self@;
        self.tick_timers(now_nanos);
        let ghost m1 = self@;

        if let Some(x) = self.awaiting_key {
            if let Some(k) = pressed_key {
                self.variable_registers[x as usize] = k;
                self.awaiting_key = None;
            }
            proof {
                assert(step_model(m0, now_nanos, keys, pressed_key, 0) == Ok::<Model, VmError>(self@));
            }
            return Ok(());
        }

        let pc = self.program_counter;
        if pc >= 4095 {
            proof {
                assert(step_model(m0, now_nanos, keys, pressed_key, 0)
                    == Err::<Model, VmError>(VmError::OutOfBoundsMemoryAccess));
                assert(self@ == step_err_state(m0, now_nanos));
            }
            return Err(VmError::OutOfBoundsMemoryAccess);
        }
        let hi = self.memory[pc as usize];
        let lo = self.memory[pc as usize + 1];
        self.current_instr = unpack(hi, lo);
        let ghost m2 = self@;

        let op = match decode(self.current_instr) {
            None => {
                proof {
                    assert(step_model(m0, now_nanos, keys, pressed_key, 0)
                        == Err::<Model, VmError>(VmError::UnrecognizedOpcode));
                    assert(self@ == step_err_state(m0, now_nanos));
                }
                return Err(VmError::UnrecognizedOpcode);
            },
            Some(op) => op,
        };

        let ghost mut rw: u8 = 0;
        let res: Result<(), VmError> = match op {
            Op::ClearDisplay => {
                self.display_clear();
                Ok(())
            },
            Op::Return => self.subroutine_return(),
            Op::Jump(..) => {
                self.goto();
                proof {
                    lemma_wrap_cancel(nnn_of(m2.instr));
                }
                Ok(())
            },
            Op::Call(..) => {
                let hr = self.call_subroutine();
                proof {
                    lemma_wrap_cancel(nnn_of(m2.instr));
                }
                hr
            },
            Op::SkipEqImm { .. } => {
                self.skip_if_register_equals_value();
                proof {
                    lemma_wrap_chain(m2.pc);
                }
                Ok(())
            },
            Op::SkipNeImm { .. } => {
                self.skip_if_register_not_equals_value();
                proof {
                    lemma_wrap_chain(m2.pc);
                }
                Ok(())
            },
            Op::SkipEqReg { .. } => {
                self.skip_if_registers_equal();
                proof {
                    lemma_wrap_chain(m2.pc);
                }
                Ok(())
            },
            Op::SetImm { .. } => {
                self.register_set_value();
                Ok(())
            },
            Op::AddImm { .. } => {
                self.register_add_value();
                Ok(())
            },
            Op::SetReg { .. } => {
                self.register_set_register();
                Ok(())
            },
            Op::OrReg { .. } => {
                self.register_or_register();
                Ok(())
            },
            Op::AndReg { .. } => {
                self.register_and_register();
                Ok(())
            },
            Op::XorReg { .. } => {
                self.register_xor_register();
                Ok(())
            },
            Op::AddReg { .. } => {
                self.register_add_register();
                Ok(())
            },
            Op::SubReg { .. } => {
                self.register_sub_register();
                Ok(())
            },
            Op::ShrReg { .. } => {
                self.register_right_shift();
                Ok(())
            },
            Op::SubnReg { .. } => {
                self.register_set_register_sub_register();
                Ok(())
            },
            Op::ShlReg { .. } => {
                self.register_left_shift();
                Ok(())
            },
            Op::SkipNeReg { .. } => {
                self.skip_if_registers_not_equal();
                proof {
                    lemma_wrap_chain(m2.pc);
                }
                Ok(())
            },
            Op::SetIndex(..) => {
                self.set_index_register();
                Ok(())
            },
            Op::JumpV0(..) => {
                self.goto_register_zero_plus_value();
                proof {
                    lemma_wrap_cancel(((m2.regs[0] + nnn_of(m2.instr)) as u16));
                }
                Ok(())
            },
            Op::RandomAnd { .. } => {
                self.set_register_rand_and_value();
                proof {
                    rw = choose|n: u8|
                        self@ == (Model {
                            regs: m2.regs.update(m2.instr.1 as int, #[trigger] (n & kk_of(m2.instr))),
                            ..m2
                        });
                }
                Ok(())
            },
            Op::Draw { .. } => self.draw_sprite(),
            Op::SkipKeyPressed { .. } => {
                self.skip_if_key_pressed_equals_register(keys);
                proof {
                    lemma_wrap_chain(m2.pc);
                }
                Ok(())
            },
            Op::SkipKeyNotPressed { .. } => {
                self.skip_if_key_pressed_not_equals_register(keys);
                proof {
                    lemma_wrap_chain(m2.pc);
                }
                Ok(())
            },
            Op::ReadDelay { .. } => {
                self.set_register_to_delay_timer();
                Ok(())
            },
            Op::WaitKey { .. } => {
                self.set_register_to_blocking_key();
                Ok(())
            },
            Op::SetDelay { .. } => {
                self.set_delay_timer_to_register();
                Ok(())
            },
            Op::SetSound { .. } => {
                self.set_sound_timer_to_register();
                Ok(())
            },
            Op::AddIndex { .. } => {
                self.add_register_to_index_register();
                Ok(())
            },
            Op::FontAddr { .. } => {
                self.set_index_register_to_sprite_location_of_register();
                Ok(())
            },
            Op::StoreBcd { .. } => self.bcd_of_register_in_index_register(),
            Op::StoreRegs { .. } => self.store_registers_up_to_in_memory(),
            Op::LoadRegs { .. } => self.loads_registers_up_to_in_memory(),
        };

        if let Err(e) = res {
            proof {
                assert(self@ == m2);
                assert(apply_op(m2, op, keys, 0) == Err::<Model, VmError>(e));
                assert(step_model(m0, now_nanos, keys, pressed_key, 0) == Err::<Model, VmError>(e));
                assert(self@ == step_err_state(m0, now_nanos));
            }
            return Err(e);
        }
        proof {
            assert(apply_op(m2, op, keys, rw) == Ok::<Model, VmError>(adv(self@)));
        }
        self.program_counter = self.program_counter.wrapping_add(2);
        proof {
            assert(step_model(m0, now_nanos, keys, pressed_key, rw) == Ok::<Model, VmError>(self@));
        }
        Ok(())
    }
}

/// The two wrapping steps of the pre-decrement convention cancel: a
/// jump target decremented by one instruction width and then advanced
/// by it is the target itself.
proof fn lemma_wrap_cancel(t: u16)
    ensures
        t.wrapping_sub(2).wrapping_add(2) == t,
{
}

/// Two uniform advances amount to one double advance, as a skipping
/// handler leaves things.
proof fn lemma_wrap_chain(t: u16)
    ensures
        t.wrapping_add(2).wrapping_add(2) == t.wrapping_add(4),
{
}

/// Decodes four instruction nibbles into the operation they denote, or
/// `None` for the fatal unrecognized-opcode condition.
pub fn decode(i: (u8, u8, u8, u8)) -> (r: Option<Op>)
    requires
        i.0 < 16 && i.1 < 16 && i.2 < 16 && i.3 < 16,
    ensures
        r == spec_decode(i),
{
    let (a, b, c, d) = i;
    let nnn = (b as u16) * 256 + (c as u16) * 16 + (d as u16);
    let kk = c * 16 + d;
    match a {
        0 => if b == 0 && c == 0xE {
            if d == 0 {
                Some(Op::ClearDisplay)
            } else if d == 0xE {
                Some(Op::Return)
            } else {
                None
            }
        } else {
            None
        },
        1 => Some(Op::Jump(nnn)),
        2 => Some(Op::Call(nnn)),
        3 => Some(Op::SkipEqImm { x: b, kk: kk }),
        4 => Some(Op::SkipNeImm { x: b, kk: kk }),
        5 => if d == 0 {
            Some(Op::SkipEqReg { x: b, y: c })
        } else {
            None
        },
        6 => Some(Op::SetImm { x: b, kk: kk }),
        7 => Some(Op::AddImm { x: b, kk: kk }),
        8 => match d {
            0 => Some(Op::SetReg { x: b, y: c }),
            1 => Some(Op::OrReg { x: b, y: c }),
            2 => Some(Op::AndReg { x: b, y: c }),
            3 => Some(Op::XorReg { x: b, y: c }),
            4 => Some(Op::AddReg { x: b, y: c }),
            5 => Some(Op::SubReg { x: b, y: c }),
            6 => Some(Op::ShrReg { x: b }),
            7 => Some(Op::SubnReg { x: b, y: c }),
            0xE => Some(Op::ShlReg { x: b }),
            _ => None,
        },
        9 => if d == 0 {
            Some(Op::SkipNeReg { x: b, y: c })
        } else {
            None
        },
        0xA => Some(Op::SetIndex(nnn)),
        0xB => Some(Op::JumpV0(nnn)),
        0xC => Some(Op::RandomAnd { x: b, kk: kk }),
        0xD => Some(Op::Draw { x: b, y: c, n: d }),
        0xE => if c == 9 && d == 0xE {
            Some(Op::SkipKeyPressed { x: b })
        } else if c == 0xA && d == 1 {
            Some(Op::SkipKeyNotPressed { x: b })
        } else {
            None
        },
        0xF => match (c, d) {
            (0, 7) => Some(Op::ReadDelay { x: b }),
            (0, 0xA) => Some(Op::WaitKey { x: b }),
            (1, 5) => Some(Op::SetDelay { x: b }),
            (1, 8) => Some(Op::SetSound { x: b }),
            (1, 0xE) => Some(Op::AddIndex { x: b }),
            (2, 9) => Some(Op::FontAddr { x: b }),
            (3, 3) => Some(Op::StoreBcd { x: b }),
            (5, 5) => Some(Op::StoreRegs { x: b }),
            (6, 5) => Some(Op::LoadRegs { x: b }),
            _ => None,
        },
        _ => None,
    }
}

/// Memory with the first `upto` bytes of the font table written at the
/// font offset.
pub open spec fn font_progress(mem: Seq<u8>, upto: int) -> Seq<u8> {
    Seq::new(4096, |a: int|
        if FONT_START_LOCATION <= a < FONT_START_LOCATION + upto {
            font_table()[a - FONT_START_LOCATION]
        } else {
            mem[a]
        })
}

/// Memory with the first `upto` program bytes written at the program
/// region.
pub open spec fn load_progress(mem: Seq<u8>, rom: Seq<u8>, upto: int) -> Seq<u8> {
    Seq::new(4096, |a: int|
        if PROGRAM_START_LOCATION <= a < PROGRAM_START_LOCATION + upto {
            rom[a - PROGRAM_START_LOCATION]
        } else {
            mem[a]
        })
}

/// Memory after a whole program is copied into the program region.
pub open spec fn loaded_memory(mem: Seq<u8>, rom: Seq<u8>) -> Seq<u8> {
    load_progress(mem, rom, rom.len() as int)
}

} // verus!
