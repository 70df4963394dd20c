//! Machine-wide laws, proved once over `step_model` so they hold of
//! every program the interpreter runs.
use vstd::prelude::*;

use crate::model::Model;
use crate::model::Op;
use crate::model::VmError;
use crate::model::draw_collision;
use crate::model::row_index;
use crate::model::spec_decode;
use crate::model::spec_unpack;
use crate::model::sprite_row_mask;
use crate::model::step_model;
use crate::model::tick;

verus! {

/// A subroutine call followed by a matching return resumes execution at
/// the instruction after the call: the call pushes its own address and
/// jumps to the subroutine; any later state that still holds that stack
/// and executes a return pops the address, and the uniform advance
/// lands on the following instruction.
pub proof fn lemma_call_return_round_trip(
    m: Model,
    now: u64,
    keys: u16,
    pressed_key: Option<u8>,
    rnd: u8,
    nnn: u16,
    mr: Model,
    now2: u64,
    keys2: u16,
    pressed_key2: Option<u8>,
    rnd2: u8,
)
    requires
        m.awaiting_key is None,
        m.pc + 1 < 4096,
        spec_decode(spec_unpack(m.memory[m.pc as int], m.memory[m.pc as int + 1]))
            == Some(Op::Call(nnn)),
        m.stack.len() < 16,
        mr.awaiting_key is None,
        mr.pc + 1 < 4096,
        spec_decode(spec_unpack(mr.memory[mr.pc as int], mr.memory[mr.pc as int + 1]))
            == Some(Op::Return),
        mr.stack == m.stack.push(m.pc),
    ensures
        step_model(m, now, keys, pressed_key, rnd) matches Ok(mc)
            && mc.pc == nnn
            && mc.stack == m.stack.push(m.pc),
        step_model(mr, now2, keys2, pressed_key2, rnd2) matches Ok(mret)
            && mret.pc == m.pc + 2
            && mret.stack == m.stack,
{
    assert(step_model(mr, now2, keys2, pressed_key2, rnd2) matches Ok(mret)
        && mret.pc == m.pc + 2
        && mret.stack == m.stack) by {
        let mt = tick(mr, now2);
        assert(mt.stack == mr.stack && mt.pc == mr.pc && mt.memory == mr.memory
            && mt.awaiting_key == mr.awaiting_key);
        assert(mr.stack.last() == m.pc);
        assert(mr.stack.drop_last() =~= m.stack);
    }
}

/// One call step between two states: the first state is about to
/// execute a call instruction, and the step relation carries it to the
/// second for some inputs of the step.
pub open spec fn call_step(m: Model, m1: Model) -> bool {
    &&& m.awaiting_key is None
    &&& m.pc + 1 < 4096
    &&& (spec_decode(spec_unpack(m.memory[m.pc as int], m.memory[m.pc as int + 1]))
        matches Some(op) && op is Call)
    &&& exists|now: u64, keys: u16, pressed_key: Option<u8>, rnd: u8|
        #[trigger] step_model(m, now, keys, pressed_key, rnd) == Ok::<Model, VmError>(m1)
}

/// A call that succeeds had room on the stack, and leaves the stack one
/// deeper, with the call site on top.
pub proof fn lemma_call_step_pushes(m: Model, m1: Model)
    requires
        call_step(m, m1),
    ensures
        m.stack.len() < 16,
        m1.stack == m.stack.push(m.pc),
{
    let (now, keys, pressed_key, rnd): (u64, u16, Option<u8>, u8) =
        choose|now: u64, keys: u16, pressed_key: Option<u8>, rnd: u8|
            step_model(m, now, keys, pressed_key, rnd) == Ok::<Model, VmError>(m1);
    let mt = tick(m, now);
    assert(mt.stack == m.stack && mt.pc == m.pc && mt.memory == m.memory
        && mt.awaiting_key == m.awaiting_key);
    assert(m.stack.len() < 16 && m1.stack == m.stack.push(m.pc)) by {
        if m.stack.len() >= 16 {
            assert(step_model(m, now, keys, pressed_key, rnd)
                == Err::<Model, VmError>(VmError::StackOverflow));
        }
    }
}

/// Along a chain of successful nested calls that starts with an empty
/// stack, the call depth counts the calls made so far.
proof fn lemma_chain_depth(ms: Seq<Model>, i: int)
    requires
        0 <= i < ms.len(),
        ms[0].stack.len() == 0,
        forall|j: int| 0 <= j < ms.len() - 1 ==> #[trigger] call_step(ms[j], ms[j + 1]),
    ensures
        ms[i].stack.len() == i,
    decreases i,
{
    if i > 0 {
        lemma_chain_depth(ms, i - 1);
        assert(call_step(ms[i - 1], ms[i - 1 + 1]));
        lemma_call_step_pushes(ms[i - 1], ms[i]);
    }
}

/// Sixteen nested calls fill the stack; executing a seventeenth call is
/// the fatal stack-overflow condition.
pub proof fn lemma_sixteen_calls_then_overflow(
    ms: Seq<Model>,
    now: u64,
    keys: u16,
    pressed_key: Option<u8>,
    rnd: u8,
    nnn: u16,
)
    requires
        ms.len() == 17,
        ms[0].stack.len() == 0,
        forall|j: int| 0 <= j < 16 ==> #[trigger] call_step(ms[j], ms[j + 1]),
        ms[16].awaiting_key is None,
        ms[16].pc + 1 < 4096,
        spec_decode(spec_unpack(ms[16].memory[ms[16].pc as int], ms[16].memory[ms[16].pc as int + 1]))
            == Some(Op::Call(nnn)),
    ensures
        forall|i: int| 0 <= i <= 16 ==> #[trigger] ms[i].stack.len() == i,
        step_model(ms[16], now, keys, pressed_key, rnd)
            == Err::<Model, VmError>(VmError::StackOverflow),
{
    assert forall|i: int| 0 <= i <= 16 implies #[trigger] ms[i].stack.len() == i by {
        lemma_chain_depth(ms, i);
    }
    let mt = tick(ms[16], now);
    assert(mt.stack == ms[16].stack && mt.pc == ms[16].pc && mt.memory == ms[16].memory
        && mt.awaiting_key == ms[16].awaiting_key);
}

/// The draw collision verdict is exact: VF reports 1 after a draw if
/// and only if some sprite row overlapped an already-set pixel on the
/// display row it was composited onto.
pub proof fn lemma_draw_collision_iff(mem: Seq<u8>, disp: Seq<u64>, idx: u16, x: u8, y: u8, h: int)
    ensures
        draw_collision(mem, disp, idx, x, y, h)
            <==> exists|i: int| 0 <= i < h
                && disp[row_index(y, i)] & sprite_row_mask(mem[idx + i], x) != 0,
    decreases h,
{
    if h > 0 {
        lemma_draw_collision_iff(mem, disp, idx, x, y, h - 1);
        if draw_collision(mem, disp, idx, x, y, h) {
            if draw_collision(mem, disp, idx, x, y, h - 1) {
                let w = choose|i: int| 0 <= i < h - 1
                    && disp[row_index(y, i)] & sprite_row_mask(mem[idx + i], x) != 0;
                assert(0 <= w < h
                    && disp[row_index(y, w)] & sprite_row_mask(mem[idx + w], x) != 0);
            } else {
                assert(0 <= h - 1 < h
                    && disp[row_index(y, h - 1)] & sprite_row_mask(mem[idx + h - 1], x) != 0);
            }
        }
    }
}

/// The timers only count down, and stop at zero: a tick never raises a
/// timer, and a timer that has reached zero stays there.
pub proof fn lemma_timer_floor(m: Model, now: u64)
    ensures
        tick(m, now).delay_timer <= m.delay_timer,
        tick(m, now).sound_timer <= m.sound_timer,
        m.delay_timer == 0 ==> tick(m, now).delay_timer == 0,
        m.sound_timer == 0 ==> tick(m, now).sound_timer == 0,
{
}

} // verus!
