//! A verified interpreter core for the classic CHIP-8 instruction set:
//! 4096 bytes of memory, sixteen 8-bit registers, a bounded call stack,
//! two 60 Hz timers and a 64x32 XOR-composited monochrome display.
//!
//! The core owns no clock, keyboard or screen. The driving loop hands
//! `Env::read_instr` the current monotonic time, a snapshot of the
//! sixteen-key keypad and any newly pressed key, and consumes the
//! display buffer and the beep signal afterwards.
pub mod laws;
pub mod model;
pub mod vm;

pub use model::Model;
pub use model::Op;
pub use model::VmError;
pub use vm::Env;
