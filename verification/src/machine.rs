use vstd::prelude::*;

verus! {

/// Bytes of addressable memory.
pub const MEMORY_SIZE: usize = 4096;

/// Width of the display in pixels.
pub const WIDTH: usize = 64;

/// Height of the display in pixels.
pub const HEIGHT: usize = 32;

/// Number of pixels of the display.
pub const FRAMEBUFFER_SIZE: usize = 2048;

/// Address at which programs are loaded and execution begins.
pub const PROGRAM_START: usize = 0;

/// Number of bytes of the built-in hexadecimal font (sixteen glyphs of five rows).
pub const FONT_SIZE: usize = 80;

/// The built-in font: five rows per hexadecimal digit, digit `d` at address `5 * d`.
pub open spec fn font() -> Seq<u8> {
    seq![
        0xF0u8, 0x90u8, 0x90u8, 0x90u8, 0xF0u8,
        0x20u8, 0x60u8, 0x20u8, 0x20u8, 0x70u8,
        0xF0u8, 0x10u8, 0xF0u8, 0x80u8, 0xF0u8,
        0xF0u8, 0x10u8, 0xF0u8, 0x10u8, 0xF0u8,
        0x90u8, 0x90u8, 0xF0u8, 0x10u8, 0x10u8,
        0xF0u8, 0x80u8, 0xF0u8, 0x10u8, 0xF0u8,
        0xF0u8, 0x80u8, 0xF0u8, 0x90u8, 0xF0u8,
        0xF0u8, 0x10u8, 0x20u8, 0x40u8, 0x40u8,
        0xF0u8, 0x90u8, 0xF0u8, 0x90u8, 0xF0u8,
        0xF0u8, 0x90u8, 0xF0u8, 0x10u8, 0xF0u8,
        0xF0u8, 0x90u8, 0xF0u8, 0x90u8, 0x90u8,
        0xE0u8, 0x90u8, 0xE0u8, 0x90u8, 0xE0u8,
        0xF0u8, 0x80u8, 0x80u8, 0x80u8, 0xF0u8,
        0xE0u8, 0x90u8, 0x90u8, 0x90u8, 0xE0u8,
        0xF0u8, 0x80u8, 0xF0u8, 0x80u8, 0xF0u8,
        0xF0u8, 0x80u8, 0xF0u8, 0x80u8, 0x80u8
    ]
}

/// An instruction that the machine does not carry out: it only moves past it.
#[derive(Clone, Copy, PartialEq, Eq, Debug)]
pub enum Unsupported {
    /// 0NNN other than 00E0 and 00EE: a call of a machine code routine.
    MachineCodeRoutine,
    /// An 8XYN or FXNN form that has no meaning, with its two bytes.
    Opcode { high: u8, low: u8 },
}

/// Which unsupported instruction, if any, the bytes `hi`, `lo` form.
pub open spec fn unsupported_form(hi: u8, lo: u8) -> Option<Unsupported> {
    let kind = hi / 16;
    let n = lo % 16;
    if kind == 0 && lo != 0xE0 && lo != 0xEE {
        Some(Unsupported::MachineCodeRoutine)
    } else if kind == 8 && !(n <= 7 || n == 0xE) {
        Some(Unsupported::Opcode { high: hi, low: lo })
    } else if kind == 0xF && !(lo == 0x07 || lo == 0x0A || lo == 0x15 || lo == 0x18 || lo == 0x1E
        || lo == 0x29 || lo == 0x33 || lo == 0x55 || lo == 0x65) {
        Some(Unsupported::Opcode { high: hi, low: lo })
    } else {
        None
    }
}

/// The abstract state of the machine.
#[verifier::ext_equal]
pub struct MachineState {
    pub registers: Seq<u8>,
    pub status: u8,
    pub pc: int,
    pub reg_i: int,
    pub memory: Seq<u8>,
    pub stack: Seq<u8>,
    pub framebuffer: Seq<u8>,
    pub vram_dirty: bool,
    pub sound_timer: u8,
    pub delay_timer: u8,
    pub prev_keypad: u16,
}

/// The state of a freshly built machine: everything zero, the font at the
/// bottom of memory, the display marked for redrawing.
pub open spec fn initial_state() -> MachineState {
    MachineState {
        registers: Seq::new(16, |i: int| 0u8),
        status: 0,
        pc: PROGRAM_START as int,
        reg_i: 0,
        memory: Seq::new(4096, |i: int| if i < 80 { font()[i] } else { 0u8 }),
        stack: Seq::empty(),
        framebuffer: Seq::new(2048, |i: int| 0u8),
        vram_dirty: true,
        sound_timer: 0,
        delay_timer: 0,
        prev_keypad: 0,
    }
}

impl MachineState {
    /// The sizes that every machine has.
    pub open spec fn wf(self) -> bool {
        &&& self.registers.len() == 16
        &&& self.memory.len() == 4096
        &&& self.framebuffer.len() == 2048
        &&& 0 <= self.pc <= 0xFFFF
        &&& 0 <= self.reg_i <= 0xFFFF
    }

    /// Memory after copying `program` to the program start address.
    pub open spec fn loaded(self, program: Seq<u8>) -> MachineState {
        MachineState {
            memory: Seq::new(
                self.memory.len(),
                |a: int|
                    if PROGRAM_START <= a < PROGRAM_START + program.len() {
                        program[a - PROGRAM_START]
                    } else {
                        self.memory[a]
                    },
            ),
            ..self
        }
    }
}


/// Whether row byte `row` of a sprite lights column `col` (0 is the leftmost,
/// most significant bit).
pub open spec fn sprite_bit(row: u8, col: u8) -> bool {
    row & (0x80u8 >> col) != 0
}

/// Whether key `k` is held in the keypad bit set `keypad`.
pub open spec fn key_down(keypad: u16, k: u8) -> bool {
    keypad & (1u16 << k) != 0
}

/// The index of the lowest set bit of `bits` at or above `from`, or 16 when
/// there is none.
pub open spec fn lowest_bit_from(bits: u16, from: int) -> int
    decreases 16 - from,
{
    if from >= 16 || from < 0 {
        16
    } else if bits & (1u16 << (from as u16)) != 0 {
        from
    } else {
        lowest_bit_from(bits, from + 1)
    }
}

/// The index of the lowest set bit of `bits` (16 when `bits` is zero).
pub open spec fn lowest_bit(bits: u16) -> int {
    lowest_bit_from(bits, 0)
}

/// The twelve-bit address held by an instruction whose bytes are `hi`, `lo`.
pub open spec fn address_of(hi: u8, lo: u8) -> int {
    (hi % 16) as int * 256 + lo as int
}

impl MachineState {
    pub open spec fn reg(self, r: int) -> u8 {
        self.registers[r]
    }

    pub open spec fn set_reg(self, r: int, v: u8) -> MachineState {
        MachineState { registers: self.registers.update(r, v), ..self }
    }

    pub open spec fn with_pc(self, pc: int) -> MachineState {
        MachineState { pc: pc, ..self }
    }

    /// Skips the next instruction when `cond` holds.
    pub open spec fn skip_if(self, cond: bool) -> MachineState {
        if cond {
            self.with_pc(self.pc + 2)
        } else {
            self
        }
    }

    /// The byte at the program counter: the low byte of the instruction.
    pub open spec fn fetch_low(self) -> u8 {
        self.memory[self.pc]
    }

    /// The byte after the program counter: the high byte of the instruction.
    pub open spec fn fetch_high(self) -> u8 {
        self.memory[self.pc + 1]
    }

    /// The display with every pixel off.
    pub open spec fn cleared(self) -> MachineState {
        MachineState { framebuffer: Seq::new(2048, |p: int| 0u8), vram_dirty: true, ..self }
    }

    /// Return from a subroutine: the two top bytes of the stack, high byte on
    /// top, become the program counter.
    pub open spec fn returned(self) -> MachineState {
        let n = self.stack.len();
        MachineState {
            pc: self.stack[n - 1] as int * 256 + self.stack[n - 2] as int,
            stack: self.stack.subrange(0, n - 2),
            ..self
        }
    }

    /// Call of the subroutine at `target`: the program counter is pushed, low
    /// byte first, and `target` becomes the program counter.
    pub open spec fn called(self, target: int) -> MachineState {
        MachineState {
            pc: target,
            stack: self.stack.push((self.pc % 256) as u8).push((self.pc / 256) as u8),
            ..self
        }
    }

    /// The arithmetic and logic instructions 8XYN.
    pub open spec fn alu(self, x: int, y: int, n: u8) -> MachineState {
        let vx = self.reg(x);
        let vy = self.reg(y);
        if n == 0 {
            self.set_reg(x, vy)
        } else if n == 1 {
            self.set_reg(x, vx | vy)
        } else if n == 2 {
            self.set_reg(x, vx & vy)
        } else if n == 3 {
            self.set_reg(x, vx ^ vy)
        } else if n == 4 {
            self.set_reg(x, ((vx + vy) % 256) as u8).set_reg(15, if vx + vy > 255 { 1 } else { 0 })
        } else if n == 5 {
            self.set_reg(x, ((vx - vy + 256) % 256) as u8).set_reg(15, if vx < vy { 0 } else { 1 })
        } else if n == 6 {
            let t = self.set_reg(15, vx % 2);
            t.set_reg(x, t.reg(x) / 2)
        } else if n == 7 {
            self.set_reg(x, ((vy - vx + 256) % 256) as u8).set_reg(15, if vy < vx { 1 } else { 0 })
        } else if n == 0xE {
            let t = self.set_reg(15, vx / 128);
            t.set_reg(x, ((t.reg(x) * 2) % 256) as u8)
        } else {
            self
        }
    }

    /// Whether display position `p` holds a lit pixel of the `rows`-row sprite
    /// at `reg_i` drawn with its top left corner at (`vx`, `vy`); rows are
    /// 64 pixels apart, so a sprite that passes the right edge continues on
    /// the next line.
    pub open spec fn sprite_covers(self, vx: int, vy: int, rows: int, p: int) -> bool {
        let rel = p - vx - vy * 64;
        &&& 0 <= rel
        &&& rel % 64 < 8
        &&& rel / 64 < rows
        &&& sprite_bit(self.memory[self.reg_i + rel / 64], (rel % 64) as u8)
    }

    /// Whether drawing that sprite flips a pixel that was lit.
    pub open spec fn sprite_collides(self, vx: int, vy: int, rows: int) -> bool {
        exists|p: int|
            0 <= p < 2048 && #[trigger] self.sprite_covers(vx, vy, rows, p) && self.framebuffer[p]
                != 0
    }

    /// The display after flipping every pixel of that sprite.
    pub open spec fn sprite_flipped(self, vx: int, vy: int, rows: int) -> Seq<u8> {
        Seq::new(
            2048,
            |p: int|
                if self.sprite_covers(vx, vy, rows, p) {
                    self.framebuffer[p] ^ 1u8
                } else {
                    self.framebuffer[p]
                },
        )
    }

    /// DXYN: VF is cleared, then the sprite of `rows` rows at I is drawn at
    /// (VX, VY) read after that clearing; VF ends as 1 exactly when a lit
    /// pixel was flipped.
    pub open spec fn drawn(self, x: int, y: int, rows: int) -> MachineState {
        let s0 = self.set_reg(15, 0);
        let vx = s0.reg(x) as int;
        let vy = s0.reg(y) as int;
        MachineState {
            framebuffer: self.sprite_flipped(vx, vy, rows),
            vram_dirty: true,
            ..s0.set_reg(15, if self.sprite_collides(vx, vy, rows) { 1 } else { 0 })
        }
    }

    /// FX33: the decimal digits of VX at I, I + 1 and I + 2.
    pub open spec fn bcd_stored(self, x: int) -> MachineState {
        let v = self.reg(x);
        MachineState {
            memory: self.memory.update(self.reg_i, v / 100).update(self.reg_i + 1, (v / 10) % 10).update(
                self.reg_i + 2,
                v % 10,
            ),
            ..self
        }
    }

    /// FX55: V0 to VX stored at I to I + X.
    pub open spec fn registers_stored(self, x: int) -> MachineState {
        MachineState {
            memory: Seq::new(
                self.memory.len(),
                |a: int|
                    if self.reg_i <= a <= self.reg_i + x {
                        self.registers[a - self.reg_i]
                    } else {
                        self.memory[a]
                    },
            ),
            ..self
        }
    }

    /// FX65: V0 to VX loaded from I to I + X.
    pub open spec fn registers_loaded(self, x: int) -> MachineState {
        MachineState {
            registers: Seq::new(
                16,
                |k: int|
                    if k <= x {
                        self.memory[self.reg_i + k]
                    } else {
                        self.registers[k]
                    },
            ),
            ..self
        }
    }

    /// The FXNN instructions.
    pub open spec fn misc(self, x: int, lo: u8, keypad: u16) -> MachineState {
        if lo == 0x07 {
            self.set_reg(x, self.delay_timer)
        } else if lo == 0x0A {
            let newly = (keypad ^ self.prev_keypad) & keypad;
            if newly == 0 {
                self.with_pc(self.pc - 2)
            } else {
                self.set_reg(x, lowest_bit(newly) as u8)
            }
        } else if lo == 0x15 {
            MachineState { delay_timer: self.reg(x), ..self }
        } else if lo == 0x18 {
            MachineState { sound_timer: self.reg(x), ..self }
        } else if lo == 0x1E {
            MachineState { reg_i: self.reg_i + self.reg(x), ..self }
        } else if lo == 0x29 {
            MachineState { reg_i: (self.reg(x) % 16) as int * 5, ..self }
        } else if lo == 0x33 {
            self.bcd_stored(x)
        } else if lo == 0x55 {
            self.registers_stored(x)
        } else if lo == 0x65 {
            self.registers_loaded(x)
        } else {
            self
        }
    }

    /// The effect of the instruction with bytes `hi`, `lo`, once the program
    /// counter has moved past it.
    pub open spec fn execute(self, hi: u8, lo: u8, keypad: u16, random: u8) -> MachineState {
        let x = (hi % 16) as int;
        let y = (lo / 16) as int;
        let n = lo % 16;
        let kind = hi / 16;
        if kind == 0 {
            if lo == 0xE0 {
                self.cleared()
            } else if lo == 0xEE {
                self.returned()
            } else {
                self
            }
        } else if kind == 1 {
            self.with_pc(address_of(hi, lo))
        } else if kind == 2 {
            self.called(address_of(hi, lo))
        } else if kind == 3 {
            self.skip_if(self.reg(x) == lo)
        } else if kind == 4 {
            self.skip_if(self.reg(x) != lo)
        } else if kind == 5 {
            self.skip_if(n == 0 && self.reg(x) == self.reg(y))
        } else if kind == 6 {
            self.set_reg(x, lo)
        } else if kind == 7 {
            self.set_reg(x, ((self.reg(x) + lo) % 256) as u8)
        } else if kind == 8 {
            self.alu(x, y, n)
        } else if kind == 9 {
            self.skip_if(n == 0 && self.reg(x) != self.reg(y))
        } else if kind == 0xA {
            MachineState { reg_i: address_of(hi, lo), ..self }
        } else if kind == 0xB {
            self.with_pc(address_of(hi, lo) + self.reg(0))
        } else if kind == 0xC {
            self.set_reg(x, random & lo)
        } else if kind == 0xD {
            self.drawn(x, y, n as int)
        } else if kind == 0xE {
            if lo == 0x9E {
                self.skip_if(key_down(keypad, self.reg(x)))
            } else if lo == 0xA1 {
                self.skip_if(!key_down(keypad, self.reg(x)))
            } else {
                self
            }
        } else {
            self.misc(x, lo, keypad)
        }
    }

    /// One fetch-execute cycle: the instruction at the program counter (low
    /// byte first) is executed after the counter has moved past it, and the
    /// keypad is remembered for the next key wait. `random` is the byte that
    /// CXNN masks.
    pub open spec fn step(self, keypad: u16, random: u8) -> MachineState {
        let after = self.with_pc(self.pc + 2).execute(self.fetch_high(), self.fetch_low(), keypad, random);
        MachineState { prev_keypad: keypad, ..after }
    }

    /// Whether the instruction with bytes `hi`, `lo` stays within memory, the
    /// stack and the shift widths when executed in this state.
    pub open spec fn executable(self, hi: u8, lo: u8) -> bool {
        let x = (hi % 16) as int;
        let kind = hi / 16;
        &&& (kind == 0 && lo == 0xEE ==> self.stack.len() >= 2)
        &&& (kind == 0xD ==> lo % 16 == 0 || self.reg_i + lo % 16 <= 4096)
        &&& (kind == 0xE ==> self.reg(x) < 16)
        &&& (kind == 0xF && lo == 0x1E ==> self.reg_i + self.reg(x) <= 0xFFFF)
        &&& (kind == 0xF && lo == 0x33 ==> self.reg_i + 2 < 4096)
        &&& (kind == 0xF && (lo == 0x55 || lo == 0x65) ==> self.reg_i + x < 4096)
    }

    /// Whether one fetch-execute cycle is defined: the instruction lies within
    /// memory and stays within memory, the stack and the shift widths.
    pub open spec fn can_step(self) -> bool {
        &&& self.wf()
        &&& self.pc + 1 < 4096
        &&& self.with_pc(self.pc + 2).executable(self.fetch_high(), self.fetch_low())
    }

    /// One tick of the timers: each that is above zero goes down by one.
    pub open spec fn ticked(self) -> MachineState {
        MachineState {
            delay_timer: if self.delay_timer > 0 { (self.delay_timer - 1) as u8 } else { 0 },
            sound_timer: if self.sound_timer > 0 { (self.sound_timer - 1) as u8 } else { 0 },
            ..self
        }
    }

    /// Whether the next instruction draws on a random byte (CXNN).
    pub open spec fn uses_random(self) -> bool {
        self.fetch_high() / 16 == 0xC
    }
}

} // verus!
