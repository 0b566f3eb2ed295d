//! What holds of the instruction set as a whole.

use vstd::prelude::*;
use crate::cpu::Interrupt;
use crate::data::OpCode;
use crate::display::lemma_blit_len;
use crate::machine::{
    alu_flag, cycle, cycle_fault, draws_random, effect, family, fault, lemma_field_ranges, n_of,
    nn_of, nnn_of, step, x_of, y_of, Machine, FLAG,
};
use crate::memory::window;
use crate::registers::STACK_SIZE;
use crate::timer::ticked;

verus! {

/// Whether `op` is one of the five register instructions that set the flag:
/// sum, the two differences, the two shifts.
pub open spec fn sets_flag(op: OpCode) -> bool {
    family(op) == 0x8 && (n_of(op) == 0x4 || n_of(op) == 0x5 || n_of(op) == 0x6 || n_of(op) == 0x7
        || n_of(op) == 0xE)
}

/// Only an instruction that asks for a random byte depends on it.
pub proof fn lemma_random_byte_unused(s: Machine, op: OpCode, r1: u8, r2: u8)
    requires
        !draws_random(op),
    ensures
        step(s, op, r1) == step(s, op, r2),
{
}

/// An instruction that the machine refuses changes nothing.
pub proof fn lemma_refusal_changes_nothing(s: Machine, op: OpCode, rnd: u8)
    requires
        fault(s, op) is Some,
    ensures
        step(s, op, rnd) == s,
{
}

/// Carrying out an instruction keeps a well-formed machine well-formed.
pub proof fn lemma_step_keeps_wf(s: Machine, op: OpCode, rnd: u8)
    requires
        s.wf(),
    ensures
        step(s, op, rnd).wf(),
{
    lemma_field_ranges(op);
    let f = family(op);
    if fault(s, op) is Some {
    } else if f == 0xD {
        lemma_blit_len(
            s.pixels,
            s.v[x_of(op)] as int,
            s.v[y_of(op)] as int,
            window(s.memory, s.i as int, n_of(op) as nat),
        );
    } else if f == 0xF {
        assert(effect(s, op, rnd).wf());
    } else if f == 0x8 {
        assert(effect(s, op, rnd).wf());
    } else if f == 0x0 || f == 0x1 || f == 0x2 || f == 0xB {
        assert(effect(s, op, rnd).wf());
    } else if f == 0x3 || f == 0x4 || f == 0x5 || f == 0x9 || f == 0xE {
        assert(effect(s, op, rnd).wf());
    } else {
        assert(effect(s, op, rnd).wf());
    }
}

/// After a flag-setting register instruction the flag is a function of the
/// two operands `V[x]` and `V[y]` as they were before: two machines that
/// agree on them agree on the flag afterwards, whatever else they hold, the
/// old flag included. For the sum and the differences the flag is the carry
/// or the missing borrow; for the shifts it is the bit shifted out, unless
/// `x` names the flag register itself, which then holds that bit shifted in
/// turn.
pub proof fn lemma_flag_from_operands(a: Machine, b: Machine, op: OpCode, ra: u8, rb: u8)
    requires
        a.wf(),
        b.wf(),
        sets_flag(op),
        a.v[x_of(op)] == b.v[x_of(op)],
        a.v[y_of(op)] == b.v[y_of(op)],
    ensures
        step(a, op, ra).v[FLAG as int] == step(b, op, rb).v[FLAG as int],
        x_of(op) != FLAG || n_of(op) == 0x4 || n_of(op) == 0x5 || n_of(op) == 0x7 ==> step(
            a,
            op,
            ra,
        ).v[FLAG as int] == alu_flag(n_of(op), a.v[x_of(op)], a.v[y_of(op)]),
{
    lemma_field_ranges(op);
}

/// A call goes to its target and leaves the address to come back to in the
/// slot the stack pointer then names; the return that follows comes back to
/// that address. Below the last nesting level the return also restores the
/// stack pointer.
pub proof fn lemma_call_then_return(s: Machine, call: OpCode, ret: OpCode, r1: u8, r2: u8)
    requires
        s.wf(),
        family(call) == 0x2,
        family(ret) == 0x0,
        nn_of(ret) == 0xEE,
    ensures
        fault(s, call) is None,
        step(s, call, r1).pc == nnn_of(call),
        step(s, call, r1).stack[step(s, call, r1).sp] == s.pc,
        fault(step(s, call, r1), ret) is None,
        step(step(s, call, r1), ret, r2).pc == s.pc,
        s.sp + 1 < STACK_SIZE ==> step(s, call, r1).sp == s.sp + 1 && step(
            step(s, call, r1),
            ret,
            r2,
        ).sp == s.sp,
{
    lemma_field_ranges(call);
    lemma_field_ranges(ret);
}

/// The key wait. The instruction `FX0A` makes the machine wait; while it
/// waits, clock cycles change nothing and cannot fail; the next key that
/// goes down ends the wait and leaves its number in `V[x]`; after that a
/// clock cycle runs the next instruction again.
pub proof fn lemma_key_wait(s: Machine, op: OpCode, key: u8, r1: u8, r2: u8, r3: u8)
    requires
        s.wf(),
        family(op) == 0xF,
        nn_of(op) == 0x0A,
        key < 16,
    ensures
        fault(s, op) is None,
        step(s, op, r1) == (Machine { interrupt: Interrupt::KeyPress(x_of(op) as u8), ..s }),
        cycle_fault(step(s, op, r1)) is None,
        cycle(step(s, op, r1), r2) == step(s, op, r1),
        step(s, op, r1).key_pressed(key).interrupt == Interrupt::Idle,
        step(s, op, r1).key_pressed(key).v == s.v.update(x_of(op), key),
        step(s, op, r1).key_pressed(key).pc == s.pc,
        !s.fetch_fault() ==> cycle(step(s, op, r1).key_pressed(key), r3) == step(
            step(s, op, r1).key_pressed(key).fetched(),
            s.next_word(),
            r3,
        ),
{
    lemma_field_ranges(op);
}

/// The value a timer holding `value` shows after `n` ticks.
pub open spec fn ticked_times(value: u8, n: nat) -> u8
    decreases n,
{
    if n == 0 {
        value
    } else {
        ticked(ticked_times(value, (n - 1) as nat))
    }
}

/// A timer counts down one step a tick until it shows zero, and shows zero
/// from then on.
pub proof fn lemma_timer_floor(value: u8, n: nat)
    ensures
        ticked_times(value, n) == if n <= value {
            value - n
        } else {
            0
        },
    decreases n,
{
    if n > 0 {
        lemma_timer_floor(value, (n - 1) as nat);
    }
}

} // verus!
