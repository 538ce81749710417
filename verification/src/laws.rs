use vstd::prelude::*;
use crate::machine::{
    initial_state, key_down, lowest_bit, lowest_bit_from, unsupported_form, MachineState,
};
use vstd::arithmetic::div_mod::lemma_fundamental_div_mod;

verus! {

/// Every pixel of the display is off (0) or on (1).
pub open spec fn display_is_binary(framebuffer: Seq<u8>) -> bool {
    forall|p: int| 0 <= p < framebuffer.len() ==> framebuffer[p] == 0 || framebuffer[p] == 1
}

/// A subroutine call (2NNN) followed by a return (00EE) at the called address
/// resumes right after the call, with the stack as it was before the call.
pub proof fn lemma_call_then_return(s: MachineState, k1: u16, r1: u8, k2: u16, r2: u8)
    requires
        s.can_step(),
        s.fetch_high() / 16 == 2,
        s.step(k1, r1).can_step(),
        s.step(k1, r1).fetch_high() == 0x00,
        s.step(k1, r1).fetch_low() == 0xEE,
    ensures
        s.step(k1, r1).step(k2, r2).pc == s.pc + 2,
        s.step(k1, r1).step(k2, r2).stack == s.stack,
{
    let ret = s.pc + 2;
    lemma_fundamental_div_mod(ret, 256);
    let t = s.step(k1, r1);
    assert(t.stack == s.stack.push((ret % 256) as u8).push((ret / 256) as u8));
    assert(t.step(k2, r2).stack =~= s.stack);
}

/// Calling a subroutine and returning from it gives back the state as it was
/// before the call: the program counter and the stack.
pub proof fn lemma_call_return_round_trip(s: MachineState, target: int)
    requires
        s.wf(),
    ensures
        s.called(target).returned() == s,
{
    lemma_fundamental_div_mod(s.pc, 256);
    assert(s.called(target).returned().stack =~= s.stack);
    assert(s.called(target).returned() =~= s);
}

/// An unsupported instruction does nothing but move the program counter past
/// itself and remember the keypad.
pub proof fn lemma_unsupported_only_advances(s: MachineState, keypad: u16, random: u8)
    requires
        s.can_step(),
        unsupported_form(s.fetch_high(), s.fetch_low()) is Some,
    ensures
        s.step(keypad, random) == (MachineState { pc: s.pc + 2, prev_keypad: keypad, ..s }),
{
}

/// Loading V0 to VX from I (FX65) right after storing them there (FX55)
/// gives back the registers.
pub proof fn lemma_store_then_load(s: MachineState, x: int)
    requires
        s.wf(),
        0 <= x < 16,
        s.reg_i + x < 4096,
    ensures
        s.registers_stored(x).registers_loaded(x).registers == s.registers,
{
    assert(s.registers_stored(x).registers_loaded(x).registers =~= s.registers);
}

/// Drawing the same sprite twice at the same place (DXYN twice) leaves the
/// display as it was before.
pub proof fn lemma_draw_twice_restores(s: MachineState, x: int, y: int, rows: int)
    requires
        s.wf(),
        0 <= x < 16,
        0 <= y < 16,
    ensures
        s.drawn(x, y, rows).drawn(x, y, rows).framebuffer == s.framebuffer,
{
    let t = s.drawn(x, y, rows);
    let vx = s.set_reg(15, 0).reg(x) as int;
    let vy = s.set_reg(15, 0).reg(y) as int;
    assert(t.set_reg(15, 0).registers =~= s.set_reg(15, 0).registers);
    assert forall|p: int| 0 <= p < 2048 implies #[trigger] t.drawn(x, y, rows).framebuffer[p]
        == s.framebuffer[p] by {
        let a = s.framebuffer[p];
        assert((a ^ 1u8) ^ 1u8 == a) by (bit_vector);
        assert(t.sprite_covers(vx, vy, rows, p) == s.sprite_covers(vx, vy, rows, p));
    }
    assert(t.drawn(x, y, rows).framebuffer =~= s.framebuffer);
}

/// A new machine has the sizes of every machine and a binary display.
pub proof fn lemma_initial_state_shape()
    ensures
        initial_state().wf(),
        display_is_binary(initial_state().framebuffer),
{
}

/// Every fetch-execute cycle keeps the display binary: pixels are only
/// cleared or flipped.
pub proof fn lemma_step_keeps_display_binary(s: MachineState, keypad: u16, random: u8)
    requires
        s.can_step(),
        display_is_binary(s.framebuffer),
    ensures
        display_is_binary(s.step(keypad, random).framebuffer),
{
    let t = s.step(keypad, random);
    assert forall|p: int| 0 <= p < t.framebuffer.len() implies t.framebuffer[p] == 0
        || t.framebuffer[p] == 1 by {
        let a = s.framebuffer[p];
        assert(a == 0 || a == 1 ==> (a ^ 1u8 == 0 || a ^ 1u8 == 1)) by (bit_vector);
    }
}

/// Every fetch-execute cycle keeps the sizes of registers, memory and display
/// and keeps the program counter and I within sixteen bits.
pub proof fn lemma_step_keeps_shape(s: MachineState, keypad: u16, random: u8)
    requires
        s.can_step(),
    ensures
        s.step(keypad, random).wf(),
{
}

/// FX33 stores the three decimal digits of VX, most significant first.
pub proof fn lemma_decimal_digits(s: MachineState, x: int)
    requires
        s.wf(),
        0 <= x < 16,
        s.reg_i + 2 < 4096,
    ensures
        ({
            let m = s.bcd_stored(x).memory;
            let i = s.reg_i;
            &&& m[i] < 10
            &&& m[i + 1] < 10
            &&& m[i + 2] < 10
            &&& 100 * m[i] + 10 * m[i + 1] + m[i + 2] == s.reg(x)
        }),
{
    let v = s.reg(x);
    assert(v / 100 < 10 && 100 * (v / 100) + 10 * ((v / 10) % 10) + v % 10 == v) by (bit_vector);
}

/// 8XY4 adds with carry: for X other than F, VX plus 256 times the carry in
/// VF is the full sum of VX and VY.
pub proof fn lemma_add_with_carry(s: MachineState, x: int, y: int)
    requires
        s.wf(),
        0 <= x < 15,
        0 <= y < 16,
    ensures
        s.alu(x, y, 4).reg(x) + 256 * s.alu(x, y, 4).reg(15) == s.reg(x) + s.reg(y),
{
}

/// 8XY5 subtracts with borrow: for X other than F, VX is the difference
/// modulo 256 and VF is 0 exactly when the subtraction borrows.
pub proof fn lemma_subtract_with_borrow(s: MachineState, x: int, y: int)
    requires
        s.wf(),
        0 <= x < 15,
        0 <= y < 16,
    ensures
        s.alu(x, y, 5).reg(x) - 256 * (1 - s.alu(x, y, 5).reg(15)) == s.reg(x) - s.reg(y),
{
}

/// The lowest set bit of a nonzero bit set is a set bit below 16.
pub proof fn lemma_lowest_bit(bits: u16)
    requires
        bits != 0,
    ensures
        0 <= lowest_bit(bits) < 16,
        bits & (1u16 << (lowest_bit(bits) as u16)) != 0,
{
    assert(bits >> 0u16 != 0) by (bit_vector)
        requires
            bits != 0,
    ;
    lemma_lowest_bit_from(bits, 0);
}

proof fn lemma_lowest_bit_from(bits: u16, from: u16)
    requires
        from < 16,
        bits >> from != 0,
    ensures
        from <= lowest_bit_from(bits, from as int) < 16,
        bits & (1u16 << (lowest_bit_from(bits, from as int) as u16)) != 0,
    decreases 16 - from,
{
    if bits & (1u16 << from) == 0 {
        assert(bits >> ((from + 1) as u16) != 0 && from + 1 < 16) by (bit_vector)
            requires
                from < 16,
                bits >> from != 0,
                bits & (1u16 << from) == 0,
        ;
        lemma_lowest_bit_from(bits, (from + 1) as u16);
    }
}

/// FX0A without a newly pressed key waits: the whole state stays as it was,
/// the program counter on the same instruction, but for the remembered keypad.
pub proof fn lemma_key_wait_waits(s: MachineState, keypad: u16, random: u8)
    requires
        s.can_step(),
        s.fetch_high() / 16 == 0xF,
        s.fetch_low() == 0x0A,
        (keypad ^ s.prev_keypad) & keypad == 0,
    ensures
        s.step(keypad, random) == (MachineState { prev_keypad: keypad, ..s }),
{
}

/// FX0A with a newly pressed key puts into VX a key that is down now and was
/// not down at the previous cycle.
pub proof fn lemma_key_wait_takes_new_key(s: MachineState, keypad: u16, random: u8)
    requires
        s.can_step(),
        s.fetch_high() / 16 == 0xF,
        s.fetch_low() == 0x0A,
        (keypad ^ s.prev_keypad) & keypad != 0,
    ensures
        ({
            let k = s.step(keypad, random).reg((s.fetch_high() % 16) as int);
            &&& k < 16
            &&& key_down(keypad, k)
            &&& !key_down(s.prev_keypad, k)
        }),
{
    let newly = (keypad ^ s.prev_keypad) & keypad;
    lemma_lowest_bit(newly);
    let k = lowest_bit(newly) as u16;
    let prev = s.prev_keypad;
    assert(keypad & (1u16 << k) != 0 && prev & (1u16 << k) == 0) by (bit_vector)
        requires
            ((keypad ^ prev) & keypad) & (1u16 << k) != 0,
    ;
}

/// Only CXNN depends on the random byte: every other instruction has the
/// same effect whatever the byte.
pub proof fn lemma_random_only_in_cxnn(s: MachineState, keypad: u16, r1: u8, r2: u8)
    requires
        s.can_step(),
        !s.uses_random(),
    ensures
        s.step(keypad, r1) == s.step(keypad, r2),
{
}

} // verus!
