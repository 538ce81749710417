//! What each instruction does, stated over one fetch-execute cycle in plain
//! arithmetic on the bytes of the instruction and the state before it.
use vstd::prelude::*;
use crate::machine::{font, initial_state, unsupported_form, MachineState, Unsupported};
use vstd::arithmetic::div_mod::{lemma_fundamental_div_mod, lemma_fundamental_div_mod_converse};

verus! {

/// The low byte of the instruction at the program counter.
pub open spec fn low_byte(s: MachineState) -> int {
    s.memory[s.pc] as int
}

/// The high byte of the instruction at the program counter.
pub open spec fn high_byte(s: MachineState) -> int {
    s.memory[s.pc + 1] as int
}

/// The instruction at the program counter as a sixteen-bit number.
pub open spec fn opcode(s: MachineState) -> int {
    high_byte(s) * 256 + low_byte(s)
}

/// The state `s` with only the program counter moved by `delta` and the
/// keypad remembered.
pub open spec fn only_pc_moved(s: MachineState, delta: int, keypad: u16) -> MachineState {
    MachineState { pc: s.pc + delta, prev_keypad: keypad, ..s }
}

/// Registers other than `x` and VF keep their values.
pub open spec fn others_kept(s: MachineState, t: MachineState, x: int) -> bool {
    forall|k: int| 0 <= k < 16 && k != x && k != 15 ==> t.registers[k] == s.registers[k]
}

/// The drawing bit of a sprite row: bit 7 - `col`, so that column 0 is the
/// most significant bit.
pub open spec fn row_pixel(row: u8, col: u8) -> bool {
    (row >> ((7 - col) as u8)) & 1u8 == 1u8
}

/// Key `k` is held in `keypad` and was not held in `prev`.
pub open spec fn newly_pressed(keypad: u16, prev: u16, k: u16) -> bool {
    (keypad >> k) & 1u16 == 1u16 && (prev >> k) & 1u16 == 0u16
}

// ---------------------------------------------------------------- jumps

/// 1NNN moves the program counter to NNN and changes nothing else.
pub proof fn law_jump(s: MachineState, keypad: u16, random: u8)
    requires
        s.can_step(),
        opcode(s) / 4096 == 1,
    ensures
        s.step(keypad, random) == (MachineState {
            pc: opcode(s) % 4096,
            prev_keypad: keypad,
            ..s
        }),
{
}

/// BNNN moves the program counter to the sum of NNN and V0.
pub proof fn law_jump_with_offset(s: MachineState, keypad: u16, random: u8)
    requires
        s.can_step(),
        opcode(s) / 4096 == 0xB,
    ensures
        s.step(keypad, random) == (MachineState {
            pc: opcode(s) % 4096 + s.registers[0],
            prev_keypad: keypad,
            ..s
        }),
{
}

/// 2NNN pushes the address of the next instruction, low byte first, and
/// moves the program counter to NNN.
pub proof fn law_call(s: MachineState, keypad: u16, random: u8)
    requires
        s.can_step(),
        opcode(s) / 4096 == 2,
    ensures
        ({
            let t = s.step(keypad, random);
            &&& t.pc == opcode(s) % 4096
            &&& t.stack.len() == s.stack.len() + 2
            &&& t.stack.take(s.stack.len() as int) == s.stack
            &&& t.stack[s.stack.len() as int] + 256 * t.stack[s.stack.len() + 1int] == s.pc + 2
            &&& t == (MachineState { pc: t.pc, stack: t.stack, prev_keypad: keypad, ..s })
        }),
{
    let t = s.step(keypad, random);
    lemma_fundamental_div_mod(s.pc + 2, 256);
    assert(t.stack.take(s.stack.len() as int) =~= s.stack);
}

/// 0XEE (00EE and any X) pops the return address, high byte on top, into the
/// program counter.
pub proof fn law_return(s: MachineState, keypad: u16, random: u8)
    requires
        s.can_step(),
        high_byte(s) / 16 == 0,
        low_byte(s) == 0xEE,
    ensures
        ({
            let t = s.step(keypad, random);
            let n = s.stack.len() as int;
            &&& t.pc == 256 * s.stack[n - 1] + s.stack[n - 2]
            &&& t.stack == s.stack.take(n - 2)
            &&& t == (MachineState { pc: t.pc, stack: t.stack, prev_keypad: keypad, ..s })
        }),
{
    let n = s.stack.len() as int;
    assert(s.step(keypad, random).stack =~= s.stack.take(n - 2));
}

// ---------------------------------------------------------------- skips

/// 3XNN skips the next instruction exactly when VX equals NN.
pub proof fn law_skip_equal(s: MachineState, keypad: u16, random: u8)
    requires
        s.can_step(),
        high_byte(s) / 16 == 3,
    ensures
        s.step(keypad, random) == only_pc_moved(
            s,
            if s.registers[high_byte(s) % 16] == low_byte(s) { 4 } else { 2 },
            keypad,
        ),
{
}

/// 4XNN skips the next instruction exactly when VX differs from NN.
pub proof fn law_skip_not_equal(s: MachineState, keypad: u16, random: u8)
    requires
        s.can_step(),
        high_byte(s) / 16 == 4,
    ensures
        s.step(keypad, random) == only_pc_moved(
            s,
            if s.registers[high_byte(s) % 16] != low_byte(s) { 4 } else { 2 },
            keypad,
        ),
{
}

/// 5XY0 skips exactly when VX equals VY; 5XYN with N other than 0 only moves on.
pub proof fn law_skip_registers_equal(s: MachineState, keypad: u16, random: u8)
    requires
        s.can_step(),
        high_byte(s) / 16 == 5,
    ensures
        s.step(keypad, random) == only_pc_moved(
            s,
            if low_byte(s) % 16 == 0 && s.registers[high_byte(s) % 16] == s.registers[low_byte(s)
                / 16] {
                4
            } else {
                2
            },
            keypad,
        ),
{
}

/// 9XY0 skips exactly when VX differs from VY; 9XYN with N other than 0 only
/// moves on.
pub proof fn law_skip_registers_differ(s: MachineState, keypad: u16, random: u8)
    requires
        s.can_step(),
        high_byte(s) / 16 == 9,
    ensures
        s.step(keypad, random) == only_pc_moved(
            s,
            if low_byte(s) % 16 == 0 && s.registers[high_byte(s) % 16] != s.registers[low_byte(s)
                / 16] {
                4
            } else {
                2
            },
            keypad,
        ),
{
}

/// EX9E skips exactly when key VX is held; EXA1 exactly when it is not.
pub proof fn law_key_skips(s: MachineState, keypad: u16, random: u8)
    requires
        s.can_step(),
        high_byte(s) / 16 == 0xE,
        low_byte(s) == 0x9E || low_byte(s) == 0xA1,
    ensures
        ({
            let k = s.registers[high_byte(s) % 16];
            let held = (keypad >> k) & 1u16 == 1u16;
            let skip = if low_byte(s) == 0x9E { held } else { !held };
            s.step(keypad, random) == only_pc_moved(s, if skip { 4 } else { 2 }, keypad)
        }),
{
    let k = s.registers[high_byte(s) % 16];
    assert((keypad & (1u16 << k) != 0) == ((keypad >> k) & 1u16 == 1u16)) by (bit_vector)
        requires
            k < 16,
    ;
}

// ---------------------------------------------------------------- registers

/// 8XY6 shifts VX right by one and keeps the bit shifted out in VF (X other
/// than F).
pub proof fn law_shift_right(s: MachineState, keypad: u16, random: u8)
    requires
        s.can_step(),
        high_byte(s) / 16 == 8,
        low_byte(s) % 16 == 6,
        high_byte(s) % 16 != 15,
    ensures
        ({
            let x = high_byte(s) % 16;
            let t = s.step(keypad, random);
            &&& t.registers[15] < 2
            &&& 2 * t.registers[x] + t.registers[15] == s.registers[x]
            &&& others_kept(s, t, x)
            &&& t.pc == s.pc + 2
            &&& t.memory == s.memory
        }),
{
}

/// 8XYE shifts VX left by one and keeps the bit shifted out in VF (X other
/// than F).
pub proof fn law_shift_left(s: MachineState, keypad: u16, random: u8)
    requires
        s.can_step(),
        high_byte(s) / 16 == 8,
        low_byte(s) % 16 == 0xE,
        high_byte(s) % 16 != 15,
    ensures
        ({
            let x = high_byte(s) % 16;
            let t = s.step(keypad, random);
            &&& t.registers[15] < 2
            &&& t.registers[x] + 256 * t.registers[15] == 2 * s.registers[x]
            &&& others_kept(s, t, x)
            &&& t.pc == s.pc + 2
        }),
{
}

// ---------------------------------------------------------------- index

/// FX29 points I at the five-byte glyph of the digit in the low nibble of VX.
pub proof fn law_font_glyph(s: MachineState, keypad: u16, random: u8)
    requires
        s.can_step(),
        high_byte(s) / 16 == 0xF,
        low_byte(s) == 0x29,
    ensures
        ({
            let v = s.registers[high_byte(s) % 16];
            let t = s.step(keypad, random);
            &&& v < 16 ==> t.reg_i == 5 * v
            &&& t.reg_i == 5 * (v % 16)
            &&& t == (MachineState { reg_i: t.reg_i, pc: s.pc + 2, prev_keypad: keypad, ..s })
        }),
{
}

// ---------------------------------------------------------------- display

/// DXYN sets VF to 1 exactly when drawing changed a pixel that was lit, and
/// to 0 otherwise.
pub proof fn law_draw_collision(s: MachineState, keypad: u16, random: u8)
    requires
        s.can_step(),
        high_byte(s) / 16 == 0xD,
    ensures
        ({
            let t = s.step(keypad, random);
            let lit_changed = exists|p: int|
                0 <= p < 2048 && s.framebuffer[p] != 0 && #[trigger] t.framebuffer[p]
                    != s.framebuffer[p];
            t.registers[15] == (if lit_changed { 1u8 } else { 0u8 })
        }),
{
    let t = s.step(keypad, random);
    let x = (s.fetch_high() % 16) as int;
    let y = (s.fetch_low() / 16) as int;
    let rows = (s.fetch_low() % 16) as int;
    let a = s.with_pc(s.pc + 2);
    let vx = a.set_reg(15, 0).reg(x) as int;
    let vy = a.set_reg(15, 0).reg(y) as int;
    assert forall|p: int| 0 <= p < 2048 implies (t.framebuffer[p] != s.framebuffer[p])
        == a.sprite_covers(vx, vy, rows, p) by {
        let b = s.framebuffer[p];
        assert(b ^ 1u8 != b) by (bit_vector);
    }
    if a.sprite_collides(vx, vy, rows) {
        let p = choose|p: int|
            0 <= p < 2048 && #[trigger] a.sprite_covers(vx, vy, rows, p) && a.framebuffer[p] != 0;
        assert(t.framebuffer[p] != s.framebuffer[p]);
    }
    if exists|p: int|
        0 <= p < 2048 && s.framebuffer[p] != 0 && #[trigger] t.framebuffer[p] != s.framebuffer[p] {
        let p = choose|p: int|
            0 <= p < 2048 && s.framebuffer[p] != 0 && #[trigger] t.framebuffer[p]
                != s.framebuffer[p];
        assert(a.sprite_covers(vx, vy, rows, p));
    }
}

/// DXYN: the pixel in row `r` and column `c` of the sprite, at position
/// VX + c + 64 (VY + r) when that is on the display, is flipped exactly when
/// bit 7 - c of the sprite's row byte at I + r is set; every pixel that
/// changes is such a pixel. VF is cleared before VX and VY are read, so
/// for X or Y equal to F the coordinate is 0.
pub proof fn law_draw_pixels(s: MachineState, keypad: u16, random: u8)
    requires
        s.can_step(),
        high_byte(s) / 16 == 0xD,
    ensures
        ({
            let t = s.step(keypad, random);
            let vx = if high_byte(s) % 16 == 15 { 0 } else { s.registers[high_byte(s) % 16] as int };
            let vy = if low_byte(s) / 16 == 15 { 0 } else { s.registers[low_byte(s) / 16] as int };
            let n = low_byte(s) % 16;
            &&& forall|r: int, c: u8|
                0 <= r < n && c < 8 && 0 <= #[trigger] (vx + c + (vy + r) * 64) < 2048 ==> {
                    let p = vx + c + (vy + r) * 64;
                    t.framebuffer[p] == if row_pixel(s.memory[s.reg_i + r], c) {
                        s.framebuffer[p] ^ 1u8
                    } else {
                        s.framebuffer[p]
                    }
                }
            &&& forall|p: int|
                0 <= p < 2048 && #[trigger] t.framebuffer[p] != s.framebuffer[p] ==> exists|
                    r: int,
                    c: u8,
                | 0 <= r < n && c < 8 && p == vx + c + (vy + r) * 64 && #[trigger] row_pixel(
                    s.memory[s.reg_i + r],
                    c,
                )
            &&& t.pc == s.pc + 2
            &&& t.vram_dirty
            &&& t.memory == s.memory
            &&& others_kept(s, t, 15)
        }),
{
    let t = s.step(keypad, random);
    let x = (s.fetch_high() % 16) as int;
    let y = (s.fetch_low() / 16) as int;
    let n = (s.fetch_low() % 16) as int;
    let a = s.with_pc(s.pc + 2);
    let vx = if x == 15 { 0 } else { s.registers[x] as int };
    let vy = if y == 15 { 0 } else { s.registers[y] as int };
    assert(a.set_reg(15, 0).reg(x) == vx);
    assert(a.set_reg(15, 0).reg(y) == vy);
    assert forall|r: int, c: u8|
        0 <= r < n && c < 8 && 0 <= #[trigger] (vx + c + (vy + r) * 64) < 2048 implies {
        let p = vx + c + (vy + r) * 64;
        t.framebuffer[p] == if row_pixel(s.memory[s.reg_i + r], c) {
            s.framebuffer[p] ^ 1u8
        } else {
            s.framebuffer[p]
        }
    } by {
        let p = vx + c + (vy + r) * 64;
        lemma_fundamental_div_mod_converse(p - vx - vy * 64, 64, r, c as int);
        let row = s.memory[s.reg_i + r];
        assert((row & (0x80u8 >> c) != 0) == ((row >> ((7 - c) as u8)) & 1u8 == 1u8))
            by (bit_vector)
            requires
                c < 8,
        ;
    }
    assert forall|p: int|
        0 <= p < 2048 && #[trigger] t.framebuffer[p] != s.framebuffer[p] implies exists|
            r: int,
            c: u8,
        | 0 <= r < n && c < 8 && p == vx + c + (vy + r) * 64 && #[trigger] row_pixel(
            s.memory[s.reg_i + r],
            c,
        ) by {
        let rel = p - vx - vy * 64;
        lemma_fundamental_div_mod(rel, 64);
        let r = rel / 64;
        let c = (rel % 64) as u8;
        let row = s.memory[s.reg_i + r];
        assert((row & (0x80u8 >> c) != 0) == ((row >> ((7 - c) as u8)) & 1u8 == 1u8))
            by (bit_vector)
            requires
                c < 8,
        ;
        assert(p == vx + c + (vy + r) * 64);
    }
}


/// 0XE0 (00E0 and any X) turns every pixel off and marks the display for
/// redrawing.
pub proof fn law_clear_screen(s: MachineState, keypad: u16, random: u8)
    requires
        s.can_step(),
        high_byte(s) / 16 == 0,
        low_byte(s) == 0xE0,
    ensures
        ({
            let t = s.step(keypad, random);
            &&& t.framebuffer.len() == 2048
            &&& forall|p: int| 0 <= p < 2048 ==> #[trigger] t.framebuffer[p] == 0
            &&& t == (MachineState {
                framebuffer: t.framebuffer,
                vram_dirty: true,
                pc: s.pc + 2,
                prev_keypad: keypad,
                ..s
            })
        }),
{
}

/// 6XNN puts NN into VX.
pub proof fn law_load_immediate(s: MachineState, keypad: u16, random: u8)
    requires
        s.can_step(),
        high_byte(s) / 16 == 6,
    ensures
        s.step(keypad, random) == (MachineState {
            registers: s.registers.update(high_byte(s) % 16, s.memory[s.pc]),
            pc: s.pc + 2,
            prev_keypad: keypad,
            ..s
        }),
{
}

/// 7XNN adds NN to VX modulo 256 and leaves VF alone.
pub proof fn law_add_immediate(s: MachineState, keypad: u16, random: u8)
    requires
        s.can_step(),
        high_byte(s) / 16 == 7,
    ensures
        ({
            let x = high_byte(s) % 16;
            let t = s.step(keypad, random);
            &&& t.registers.len() == 16
            &&& (t.registers[x] == s.registers[x] + low_byte(s) || t.registers[x] == s.registers[x]
                + low_byte(s) - 256)
            &&& forall|k: int| 0 <= k < 16 && k != x ==> t.registers[k] == s.registers[k]
            &&& t == (MachineState { registers: t.registers, pc: s.pc + 2, prev_keypad: keypad, ..s })
        }),
{
}

/// ANNN puts NNN into I.
pub proof fn law_set_index(s: MachineState, keypad: u16, random: u8)
    requires
        s.can_step(),
        opcode(s) / 4096 == 0xA,
    ensures
        s.step(keypad, random) == (MachineState {
            reg_i: opcode(s) % 4096,
            pc: s.pc + 2,
            prev_keypad: keypad,
            ..s
        }),
{
}

/// CXNN puts the random byte masked by NN into VX: every bit of VX is a bit
/// of both.
pub proof fn law_random_masked(s: MachineState, keypad: u16, random: u8)
    requires
        s.can_step(),
        high_byte(s) / 16 == 0xC,
    ensures
        s.step(keypad, random) == (MachineState {
            registers: s.registers.update(high_byte(s) % 16, random & s.memory[s.pc]),
            pc: s.pc + 2,
            prev_keypad: keypad,
            ..s
        }),
{
}

/// 8XY0 to 8XY3 copy VY into VX, or combine them bit by bit with or, and, xor.
pub proof fn law_logic(s: MachineState, keypad: u16, random: u8)
    requires
        s.can_step(),
        high_byte(s) / 16 == 8,
        low_byte(s) % 16 <= 3,
    ensures
        ({
            let x = high_byte(s) % 16;
            let vx = s.registers[x];
            let vy = s.registers[low_byte(s) / 16];
            let n = low_byte(s) % 16;
            let v = if n == 0 {
                vy
            } else if n == 1 {
                vx | vy
            } else if n == 2 {
                vx & vy
            } else {
                vx ^ vy
            };
            s.step(keypad, random) == (MachineState {
                registers: s.registers.update(x, v),
                pc: s.pc + 2,
                prev_keypad: keypad,
                ..s
            })
        }),
{
}

/// 8XY4 adds VY to VX: VX plus 256 times VF is the full sum (X other than F).
pub proof fn law_add_registers(s: MachineState, keypad: u16, random: u8)
    requires
        s.can_step(),
        high_byte(s) / 16 == 8,
        low_byte(s) % 16 == 4,
        high_byte(s) % 16 != 15,
    ensures
        ({
            let x = high_byte(s) % 16;
            let t = s.step(keypad, random);
            &&& t.registers[15] < 2
            &&& t.registers[x] + 256 * t.registers[15] == s.registers[x] + s.registers[low_byte(
                s,
            ) / 16]
            &&& others_kept(s, t, x)
            &&& t.pc == s.pc + 2
        }),
{
}

/// 8XY5 subtracts VY from VX: VF is 1 when there is no borrow, 0 when there
/// is, and VX minus 256 for a borrow is the difference (X other than F).
pub proof fn law_subtract_registers(s: MachineState, keypad: u16, random: u8)
    requires
        s.can_step(),
        high_byte(s) / 16 == 8,
        low_byte(s) % 16 == 5,
        high_byte(s) % 16 != 15,
    ensures
        ({
            let x = high_byte(s) % 16;
            let t = s.step(keypad, random);
            &&& t.registers[15] < 2
            &&& t.registers[x] - 256 * (1 - t.registers[15]) == s.registers[x] - s.registers[low_byte(
                s,
            ) / 16]
            &&& others_kept(s, t, x)
            &&& t.pc == s.pc + 2
        }),
{
}

/// 8XY7 puts VY minus VX into VX, with VF 1 when that borrows (X other
/// than F).
pub proof fn law_reverse_subtract(s: MachineState, keypad: u16, random: u8)
    requires
        s.can_step(),
        high_byte(s) / 16 == 8,
        low_byte(s) % 16 == 7,
        high_byte(s) % 16 != 15,
    ensures
        ({
            let x = high_byte(s) % 16;
            let t = s.step(keypad, random);
            &&& t.registers[15] < 2
            &&& t.registers[x] - 256 * t.registers[15] == s.registers[low_byte(s) / 16]
                - s.registers[x]
            &&& others_kept(s, t, x)
            &&& t.pc == s.pc + 2
        }),
{
}

/// FX07, FX15 and FX18 move the delay timer into VX, and VX into the delay
/// and sound timers.
pub proof fn law_timers(s: MachineState, keypad: u16, random: u8)
    requires
        s.can_step(),
        high_byte(s) / 16 == 0xF,
        low_byte(s) == 0x07 || low_byte(s) == 0x15 || low_byte(s) == 0x18,
    ensures
        ({
            let x = high_byte(s) % 16;
            let t = s.step(keypad, random);
            &&& low_byte(s) == 0x07 ==> t == (MachineState {
                registers: s.registers.update(x, s.delay_timer),
                pc: s.pc + 2,
                prev_keypad: keypad,
                ..s
            })
            &&& low_byte(s) == 0x15 ==> t == (MachineState {
                delay_timer: s.registers[x],
                pc: s.pc + 2,
                prev_keypad: keypad,
                ..s
            })
            &&& low_byte(s) == 0x18 ==> t == (MachineState {
                sound_timer: s.registers[x],
                pc: s.pc + 2,
                prev_keypad: keypad,
                ..s
            })
        }),
{
}

/// FX1E adds VX to I.
pub proof fn law_add_to_index(s: MachineState, keypad: u16, random: u8)
    requires
        s.can_step(),
        high_byte(s) / 16 == 0xF,
        low_byte(s) == 0x1E,
    ensures
        s.step(keypad, random) == (MachineState {
            reg_i: s.reg_i + s.registers[high_byte(s) % 16],
            pc: s.pc + 2,
            prev_keypad: keypad,
            ..s
        }),
{
}

/// FX33 writes the hundreds, tens and units digits of VX at I, I + 1, I + 2
/// and no other byte.
pub proof fn law_decimal_digits(s: MachineState, keypad: u16, random: u8)
    requires
        s.can_step(),
        high_byte(s) / 16 == 0xF,
        low_byte(s) == 0x33,
    ensures
        ({
            let v = s.registers[high_byte(s) % 16] as int;
            let t = s.step(keypad, random);
            let i = s.reg_i;
            &&& t.memory.len() == s.memory.len()
            &&& t.memory[i] < 10 && t.memory[i + 1] < 10 && t.memory[i + 2] < 10
            &&& 100 * t.memory[i] + 10 * t.memory[i + 1] + t.memory[i + 2] == v
            &&& forall|a: int|
                0 <= a < 4096 && (a < i || a > i + 2) ==> t.memory[a] == s.memory[a]
            &&& t == (MachineState { memory: t.memory, pc: s.pc + 2, prev_keypad: keypad, ..s })
        }),
{
    let v = s.registers[high_byte(s) % 16];
    assert(v / 100 < 10 && 100 * (v / 100) + 10 * ((v / 10) % 10) + v % 10 == v) by (bit_vector);
}

/// FX55 copies V0 to VX into memory at I to I + X and changes no other byte.
pub proof fn law_store_registers(s: MachineState, keypad: u16, random: u8)
    requires
        s.can_step(),
        high_byte(s) / 16 == 0xF,
        low_byte(s) == 0x55,
    ensures
        ({
            let x = high_byte(s) % 16;
            let t = s.step(keypad, random);
            &&& t.memory.len() == 4096
            &&& forall|k: int| 0 <= k <= x ==> #[trigger] t.memory[s.reg_i + k] == s.registers[k]
            &&& forall|a: int|
                0 <= a < 4096 && (a < s.reg_i || a > s.reg_i + x) ==> #[trigger] t.memory[a]
                    == s.memory[a]
            &&& t == (MachineState { memory: t.memory, pc: s.pc + 2, prev_keypad: keypad, ..s })
        }),
{
}

/// FX65 copies memory at I to I + X into V0 to VX and changes no other register.
pub proof fn law_load_registers(s: MachineState, keypad: u16, random: u8)
    requires
        s.can_step(),
        high_byte(s) / 16 == 0xF,
        low_byte(s) == 0x65,
    ensures
        ({
            let x = high_byte(s) % 16;
            let t = s.step(keypad, random);
            &&& t.registers.len() == 16
            &&& forall|k: int| 0 <= k <= x ==> #[trigger] t.registers[k] == s.memory[s.reg_i + k]
            &&& forall|k: int| x < k < 16 ==> #[trigger] t.registers[k] == s.registers[k]
            &&& t == (MachineState { registers: t.registers, pc: s.pc + 2, prev_keypad: keypad, ..s })
        }),
{
}

/// FX0A: with no key newly pressed since the previous cycle the instruction
/// repeats; otherwise VX becomes the smallest newly pressed key, one held now
/// and not held before.
pub proof fn law_wait_for_key(s: MachineState, keypad: u16, random: u8)
    requires
        s.can_step(),
        high_byte(s) / 16 == 0xF,
        low_byte(s) == 0x0A,
    ensures
        ({
            let x = high_byte(s) % 16;
            let t = s.step(keypad, random);
            let prev = s.prev_keypad;
            &&& (forall|k: u16| k < 16 ==> !#[trigger] newly_pressed(keypad, prev, k)) ==> t == (MachineState {
                prev_keypad: keypad,
                ..s
            })
            &&& (exists|k: u16| k < 16 && #[trigger] newly_pressed(keypad, prev, k)) ==> {
                let v = t.registers[x];
                &&& v < 16
                &&& newly_pressed(keypad, prev, v as u16)
                &&& forall|j: u16| j < v ==> !#[trigger] newly_pressed(keypad, prev, j)
                &&& t == (MachineState {
                    registers: s.registers.update(x, v),
                    pc: s.pc + 2,
                    prev_keypad: keypad,
                    ..s
                })
            }
        }),
{
    let prev = s.prev_keypad;
    let bits = (keypad ^ prev) & keypad;
    assert forall|k: u16| k < 16 implies (bits & (1u16 << k) != 0) == #[trigger] newly_pressed(
        keypad,
        prev,
        k,
    ) by {
        assert((((keypad ^ prev) & keypad) & (1u16 << k) != 0) == ((keypad >> k) & 1u16 == 1u16
            && (prev >> k) & 1u16 == 0u16)) by (bit_vector)
            requires
                k < 16,
        ;
    }
    if bits == 0 {
        assert forall|k: u16| k < 16 implies bits & (1u16 << k) == 0 by {
            assert(0u16 & (1u16 << k) == 0) by (bit_vector);
        }
    } else {
        crate::laws::lemma_lowest_bit(bits);
        lemma_lowest_bit_is_least(bits, 0);
        let w = crate::machine::lowest_bit(bits) as u16;
        assert(bits & (1u16 << w) != 0);
        assert(newly_pressed(keypad, prev, w));
    }
    if exists|k: u16| k < 16 && #[trigger] newly_pressed(keypad, prev, k) {
        let k = choose|k: u16| k < 16 && #[trigger] newly_pressed(keypad, prev, k);
        if bits == 0 {
            assert(bits & (1u16 << k) != 0);
        }
    }
}

/// No bit below the lowest set bit at or above `from` is set, from `from` on.
proof fn lemma_lowest_bit_is_least(bits: u16, from: int)
    requires
        0 <= from <= 16,
    ensures
        forall|j: u16|
            from <= j < crate::machine::lowest_bit_from(bits, from) && j < 16 ==> bits & (1u16
                << j) == 0,
    decreases 16 - from,
{
    if from < 16 {
        lemma_lowest_bit_is_least(bits, from + 1);
    }
}


// ---------------------------------------------------------------- machine

/// A timer tick lowers each nonzero timer by exactly one, leaves a zero timer
/// at zero, and changes nothing else.
pub proof fn law_tick(s: MachineState)
    ensures
        ({
            let t = s.ticked();
            &&& t.delay_timer + (if s.delay_timer > 0 { 1int } else { 0int }) == s.delay_timer
            &&& t.sound_timer + (if s.sound_timer > 0 { 1int } else { 0int }) == s.sound_timer
            &&& t == (MachineState { delay_timer: t.delay_timer, sound_timer: t.sound_timer, ..s })
        }),
{
}

/// Loading a program puts its bytes at addresses 0 onward and keeps every
/// other byte and every other part of the state.
pub proof fn law_load(s: MachineState, program: Seq<u8>)
    requires
        s.wf(),
        program.len() <= 4096,
    ensures
        ({
            let t = s.loaded(program);
            &&& t.memory.len() == 4096
            &&& forall|a: int| 0 <= a < program.len() ==> #[trigger] t.memory[a] == program[a]
            &&& forall|a: int| program.len() <= a < 4096 ==> #[trigger] t.memory[a] == s.memory[a]
            &&& t == (MachineState { memory: t.memory, ..s })
        }),
{
}

/// A new machine: all registers, I, timers and the program counter zero, the
/// stack empty, the display dark and to be drawn, the font in the first 80
/// bytes and zeros above.
pub proof fn law_initial(s: MachineState)
    requires
        s == initial_state(),
    ensures
        s.registers.len() == 16,
        forall|k: int| 0 <= k < 16 ==> #[trigger] s.registers[k] == 0,
        s.pc == 0,
        s.reg_i == 0,
        s.stack.len() == 0,
        s.delay_timer == 0 && s.sound_timer == 0 && s.prev_keypad == 0 && s.status == 0,
        s.vram_dirty,
        s.framebuffer.len() == 2048,
        forall|p: int| 0 <= p < 2048 ==> #[trigger] s.framebuffer[p] == 0,
        s.memory.len() == 4096,
        forall|a: int| 0 <= a < 80 ==> #[trigger] s.memory[a] == font()[a],
        forall|a: int| 80 <= a < 4096 ==> #[trigger] s.memory[a] == 0,
{
}

/// The unsupported instructions are exactly 0NNN with NN neither E0 nor EE,
/// 8XYN with N from 8 to D or F, and FXNN with NN none of 07, 0A, 15, 18, 1E,
/// 29, 33, 55, 65; the first kind is a machine code routine call, the others
/// carry their two bytes.
pub proof fn law_unsupported_forms(hi: u8, lo: u8)
    ensures
        ({
            let op = hi as int * 256 + lo as int;
            let nn = op % 256;
            let routine = op / 4096 == 0 && nn != 0xE0 && nn != 0xEE;
            let alu = op / 4096 == 8 && (8 <= op % 16 <= 0xD || op % 16 == 0xF);
            let misc = op / 4096 == 0xF && nn != 0x07 && nn != 0x0A && nn != 0x15 && nn != 0x18
                && nn != 0x1E && nn != 0x29 && nn != 0x33 && nn != 0x55 && nn != 0x65;
            &&& routine ==> unsupported_form(hi, lo) == Some(Unsupported::MachineCodeRoutine)
            &&& alu || misc ==> unsupported_form(hi, lo) == Some(
                Unsupported::Opcode { high: hi, low: lo },
            )
            &&& !(routine || alu || misc) ==> unsupported_form(hi, lo) == None::<Unsupported>
        }),
{
}

} // verus!
