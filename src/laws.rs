use vstd::prelude::*;

use crate::model::{
    draw, effect, family, fetch, loads_delay, next, nibble, recognized, reg_x, reg_y,
    sprite_collides, MachineState, DISPLAY_SIZE, FLAG, MEMORY_SIZE,
};

verus! {

/// XOR with 1 keeps a pixel 0 or 1.
proof fn lemma_flip_pixel(d: u8)
    requires
        d <= 1,
    ensures
        d ^ 1u8 <= 1,
{
    assert(d <= 1 ==> d ^ 1u8 <= 1) by (bit_vector);
}

/// Every cycle keeps the machine well formed: the stack pointer within the stack,
/// saved return addresses within memory, and every pixel 0 or 1.
pub proof fn step_preserves_wf(s: MachineState, random: u8)
    requires
        s.wf(),
    ensures
        next(s, random) is Ok ==> next(s, random)->Ok_0.0.wf(),
{
    if s.pc + 1 < MEMORY_SIZE {
        let op = fetch(s.memory, s.pc);
        let s1 = MachineState { opcode: op, ..s };
        if recognized(op) && family(op) == 0xD {
            if let Ok(t) = draw(s1) {
                assert forall|p: int| 0 <= p < DISPLAY_SIZE implies #[trigger] t.display[p] <= 1 by {
                    lemma_flip_pixel(s.display[p]);
                }
            }
        }
        if recognized(op) {
            if let Ok(t) = effect(s1, random) {
                assert(t.wf());
            }
        }
    }
}

/// A completed cycle whose instruction does not load the delay timer counts it down
/// by one, and leaves it at zero once there.
pub proof fn cycle_counts_delay_down(s: MachineState, random: u8)
    requires
        next(s, random) is Ok,
        !loads_delay(s),
    ensures
        next(s, random)->Ok_0.0.delay_timer == if s.delay_timer > 0 {
            s.delay_timer - 1
        } else {
            0
        },
{
}

/// The delay timer after the first `k` cycles of such a run.
proof fn lemma_delay_after(states: Seq<MachineState>, randoms: Seq<u8>, k: int)
    requires
        states.len() == randoms.len() + 1,
        states[0].delay_timer == randoms.len(),
        forall|j: int|
            0 <= j < randoms.len() ==> {
                &&& #[trigger] next(states[j], randoms[j]) is Ok
                &&& next(states[j], randoms[j])->Ok_0.0 == states[j + 1]
                &&& !loads_delay(states[j])
            },
        0 <= k <= randoms.len(),
    ensures
        states[k].delay_timer == randoms.len() - k,
    decreases k,
{
    if k > 0 {
        lemma_delay_after(states, randoms, k - 1);
        assert(next(states[k - 1], randoms[k - 1]) is Ok);
        cycle_counts_delay_down(states[k - 1], randoms[k - 1]);
    }
}

/// Once the delay timer holds `n`, `n` further completed cycles that do not load it
/// bring it down one per cycle, to zero at the last. `states[k + 1]` is the machine
/// after the cycle run on `states[k]` with the byte `randoms[k]`.
pub proof fn delay_timer_runs_out(states: Seq<MachineState>, randoms: Seq<u8>)
    requires
        states.len() == randoms.len() + 1,
        states[0].delay_timer == randoms.len(),
        forall|k: int|
            0 <= k < randoms.len() ==> {
                &&& #[trigger] next(states[k], randoms[k]) is Ok
                &&& next(states[k], randoms[k])->Ok_0.0 == states[k + 1]
                &&& !loads_delay(states[k])
            },
    ensures
        forall|k: int| 0 <= k < states.len() ==> #[trigger] states[k].delay_timer == randoms.len() - k,
        states[randoms.len() as int].delay_timer == 0,
{
    assert forall|k: int| 0 <= k < states.len() implies #[trigger] states[k].delay_timer
        == randoms.len() - k by {
        lemma_delay_after(states, randoms, k);
    }
}

/// Clearing the screen: a cycle on `00E0` always completes and leaves every pixel
/// dark, whatever was drawn before, and asks for a redraw.
pub proof fn clear_screen_blanks_display(s: MachineState, random: u8)
    requires
        s.wf(),
        s.pc + 1 < MEMORY_SIZE,
        fetch(s.memory, s.pc) == 0x00E0,
    ensures
        next(s, random) is Ok,
        forall|p: int| 0 <= p < DISPLAY_SIZE ==> #[trigger] next(s, random)->Ok_0.0.display[p] == 0,
        next(s, random)->Ok_0.0.draw_flag,
{
}

/// A return right after a call: when `2nnn` completes and the instruction at `nnn` is
/// `00EE`, the return completes, `pc` lands just after the call, and the stack
/// pointer drops by one, back to where it was before the call.
pub proof fn call_then_return(s: MachineState, random1: u8, random2: u8)
    requires
        s.wf(),
        s.pc + 1 < MEMORY_SIZE,
        family(fetch(s.memory, s.pc)) == 2,
        next(s, random1) is Ok,
        next(s, random1)->Ok_0.0.pc + 1 < MEMORY_SIZE,
        fetch(next(s, random1)->Ok_0.0.memory, next(s, random1)->Ok_0.0.pc) == 0x00EE,
    ensures
        next(next(s, random1)->Ok_0.0, random2) is Ok,
        next(next(s, random1)->Ok_0.0, random2)->Ok_0.0.pc == s.pc + 2,
        next(next(s, random1)->Ok_0.0, random2)->Ok_0.0.sp == next(s, random1)->Ok_0.0.sp - 1,
        next(next(s, random1)->Ok_0.0, random2)->Ok_0.0.sp == s.sp,
{
}

/// Drawing a sprite sets `vF` to 1 when one of its set bits lands on a lit pixel,
/// and to 0 when every set bit lands on a dark one.
pub proof fn draw_reports_collision(s: MachineState, random: u8)
    requires
        s.wf(),
        s.pc + 1 < MEMORY_SIZE,
        family(fetch(s.memory, s.pc)) == 0xD,
        next(s, random) is Ok,
    ensures
        ({
            let op = fetch(s.memory, s.pc);
            let s1 = MachineState { opcode: op, ..s };
            let vx = s.v[reg_x(op)];
            let vy = s.v[reg_y(op)];
            next(s, random)->Ok_0.0.v[FLAG as int] == if sprite_collides(s1, vx, vy, nibble(op)) {
                1u8
            } else {
                0u8
            }
        }),
{
}

} // verus!
