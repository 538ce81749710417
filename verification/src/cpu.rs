use vstd::prelude::*;
use crate::machine::{
    address_of, font, initial_state, key_down, unsupported_form, Unsupported, lowest_bit, lowest_bit_from, sprite_bit, MachineState, FONT_SIZE,
    FRAMEBUFFER_SIZE, HEIGHT, MEMORY_SIZE, PROGRAM_START, WIDTH,
};
use vstd::arithmetic::div_mod::{lemma_fundamental_div_mod, lemma_fundamental_div_mod_converse};

verus! {

/// The CHIP-8 processor with its memory, display and timers.
pub struct CPU {
    pub registers: [u8; 16],
    pub status: u8,
    pub program_counter: u16,
    pub reg_i: u16,
    pub memory: [u8; 4096],
    pub stack: Vec<u8>,
    pub framebuffer: [u8; 2048],
    pub vram_dirty: bool,
    pub sound_timer: u8,
    pub delay_timer: u8,
    pub prev_keypad: u16,
}

impl View for CPU {
    type V = MachineState;

    open spec fn view(&self) -> MachineState {
        MachineState {
            registers: self.registers@,
            status: self.status,
            pc: self.program_counter as int,
            reg_i: self.reg_i as int,
            memory: self.memory@,
            stack: self.stack@,
            framebuffer: self.framebuffer@,
            vram_dirty: self.vram_dirty,
            sound_timer: self.sound_timer,
            delay_timer: self.delay_timer,
            prev_keypad: self.prev_keypad,
        }
    }
}

/// The glyphs of the built-in font as an array.
fn font_sprites() -> (f: [u8; 80])
    ensures
        f@ == font(),
{
    let f: [u8; 80] = [
        0xF0, 0x90, 0x90, 0x90, 0xF0,
        0x20, 0x60, 0x20, 0x20, 0x70,
        0xF0, 0x10, 0xF0, 0x80, 0xF0,
        0xF0, 0x10, 0xF0, 0x10, 0xF0,
        0x90, 0x90, 0xF0, 0x10, 0x10,
        0xF0, 0x80, 0xF0, 0x10, 0xF0,
        0xF0, 0x80, 0xF0, 0x90, 0xF0,
        0xF0, 0x10, 0x20, 0x40, 0x40,
        0xF0, 0x90, 0xF0, 0x90, 0xF0,
        0xF0, 0x90, 0xF0, 0x10, 0xF0,
        0xF0, 0x90, 0xF0, 0x90, 0x90,
        0xE0, 0x90, 0xE0, 0x90, 0xE0,
        0xF0, 0x80, 0x80, 0x80, 0xF0,
        0xE0, 0x90, 0x90, 0x90, 0xE0,
        0xF0, 0x80, 0xF0, 0x80, 0xF0,
        0xF0, 0x80, 0xF0, 0x80, 0x80,
    ];
    assert(f@ =~= font());
    f
}

impl CPU {
    /// A machine with cleared registers, display and stack, the font at the
    /// bottom of memory, and the program counter at the program start.
    pub fn new() -> (cpu: CPU)
        ensures
            cpu@ == initial_state(),
    {
        let mut mem = [0u8; 4096];
        let glyphs = font_sprites();
        let mut a: usize = 0;
        while a < FONT_SIZE
            invariant
                0 <= a <= 80,
                glyphs@ == font(),
                forall|j: int| 0 <= j < a ==> mem@[j] == font()[j],
                forall|j: int| a <= j < 4096 ==> mem@[j] == 0u8,
            decreases 80 - a,
        {
            mem[a] = glyphs[a];
            a = a + 1;
        }
        let cpu = CPU {
            registers: [0u8; 16],
            status: 0,
            program_counter: PROGRAM_START as u16,
            reg_i: 0,
            memory: mem,
            stack: Vec::new(),
            framebuffer: [0u8; 2048],
            vram_dirty: true,
            sound_timer: 0,
            delay_timer: 0,
            prev_keypad: 0,
        };
        assert(cpu@.memory =~= initial_state().memory);
        assert(cpu@.registers =~= initial_state().registers);
        assert(cpu@.framebuffer =~= initial_state().framebuffer);
        cpu
    }

    /// Copies `program` into memory from the program start address on.
    pub fn load_program(&mut self, program: Vec<u8>)
        requires
            PROGRAM_START + program.len() <= MEMORY_SIZE,
        ensures
            final(self)@ == old(self)@.loaded(program@),
    {
        let mut idx: usize = 0;
        while idx < program.len()
            invariant
                PROGRAM_START + program.len() <= 4096,
                0 <= idx <= program.len(),
                self@ == old(self)@.loaded(program@.take(idx as int)),
            decreases program.len() - idx,
        {
            self.memory[PROGRAM_START + idx] = program[idx];
            idx = idx + 1;
            assert(self@.memory =~= old(self)@.loaded(program@.take(idx as int)).memory);
        }
        assert(program@.take(idx as int) =~= program@);
    }
}


/// The twelve-bit address `NNN` of an instruction with bytes `operand1`, `operand2`.
fn nnn(operand1: u8, operand2: u8) -> (a: u16)
    ensures
        a as int == address_of(operand1, operand2),
{
    let a = (((operand1 & 0xF) as u16) << 8) | operand2 as u16;
    assert(a == ((operand1 % 16) as u16) * 256 + (operand2 as u16)) by (bit_vector)
        requires
            a == (((operand1 & 0xF) as u16) << 8) | operand2 as u16,
    ;
    a
}

impl CPU {
    /// Pushes the program counter, low byte first, and jumps to `NNN`.
    fn call_subroutine(&mut self, op1: u8, op2: u8)
        ensures
            final(self)@ == old(self)@.called(address_of(op1, op2)),
    {
        let pc = self.program_counter;
        let low = (pc & 0xFF) as u8;
        let high = ((pc >> 8) & 0xFF) as u8;
        assert(low == (pc % 256) as u8 && high == (pc / 256) as u8) by (bit_vector)
            requires
                low == (pc & 0xFF) as u8,
                high == ((pc >> 8) & 0xFF) as u8,
        ;
        self.stack.push(low);
        self.stack.push(high);
        self.program_counter = nnn(op1, op2);
    }

    /// Pops the return address, high byte on top, into the program counter.
    fn ret_subroutine(&mut self)
        requires
            old(self).stack.len() >= 2,
        ensures
            final(self)@ == old(self)@.returned(),
    {
        let high = self.stack.pop().unwrap();
        let low = self.stack.pop().unwrap();
        let pc = ((high as u16) << 8) | (low as u16);
        assert(pc == (high as u16) * 256 + (low as u16)) by (bit_vector)
            requires
                pc == ((high as u16) << 8) | (low as u16),
        ;
        self.program_counter = pc;
        assert(self@.stack =~= old(self)@.returned().stack);
    }

    /// The arithmetic and logic instructions 8XYN.
    fn alu(&mut self, x: usize, y: usize, n: u8)
        requires
            x < 16,
            y < 16,
        ensures
            final(self)@ == old(self)@.alu(x as int, y as int, n),
    {
        let vx = self.registers[x];
        let vy = self.registers[y];
        match n {
            0x0 => {
                self.registers[x] = vy;
            },
            0x1 => {
                self.registers[x] = vx | vy;
            },
            0x2 => {
                self.registers[x] = vx & vy;
            },
            0x3 => {
                self.registers[x] = vx ^ vy;
            },
            0x4 => {
                let carry = vx as u16 + vy as u16 > 255;
                self.registers[x] = vx.wrapping_add(vy);
                self.registers[0xF] = if carry { 1 } else { 0 };
            },
            0x5 => {
                let borrow = vx < vy;
                self.registers[x] = vx.wrapping_sub(vy);
                self.registers[0xF] = if borrow { 0 } else { 1 };
            },
            0x6 => {
                self.registers[0xF] = vx & 0x1;
                let v = self.registers[x];
                assert(v & 1 == v % 2 && v >> 1 == v / 2) by (bit_vector);
                assert(vx & 1 == vx % 2) by (bit_vector);
                self.registers[x] = v >> 1;
            },
            0x7 => {
                let borrow = vy < vx;
                self.registers[x] = vy.wrapping_sub(vx);
                self.registers[0xF] = if borrow { 1 } else { 0 };
            },
            0xE => {
                self.registers[0xF] = (vx & 0x80) >> 7;
                let v = self.registers[x];
                assert((vx & 0x80) >> 7 == vx / 128) by (bit_vector);
                assert(v << 1 == ((v * 2) % 256) as u8) by (bit_vector);
                self.registers[x] = v << 1;
            },
            _ => {},
        }
        assert(self@.registers =~= old(self)@.alu(x as int, y as int, n).registers);
    }
}


/// Whether position `p` is a pixel of the sprite that the drawing loop has
/// reached: in a row before `line`, or in row `line` before column `col`.
spec fn reached(s: MachineState, vx: int, vy: int, rows: int, line: int, col: int, p: int) -> bool {
    let rel = p - vx - vy * 64;
    &&& s.sprite_covers(vx, vy, rows, p)
    &&& (rel / 64 < line || (rel / 64 == line && rel % 64 < col))
}

/// Whether a pixel reached so far was lit before drawing.
spec fn hit_so_far(s: MachineState, vx: int, vy: int, rows: int, line: int, col: int) -> bool {
    exists|p: int|
        0 <= p < 2048 && #[trigger] reached(s, vx, vy, rows, line, col, p) && s.framebuffer[p] != 0
}

/// The display once the pixels reached so far are flipped.
spec fn flipped_so_far(s: MachineState, vx: int, vy: int, rows: int, line: int, col: int) -> Seq<u8> {
    Seq::new(
        2048,
        |p: int|
            if reached(s, vx, vy, rows, line, col, p) {
                s.framebuffer[p] ^ 1u8
            } else {
                s.framebuffer[p]
            },
    )
}

/// Two stages of the drawing loop that have reached the same pixels agree
/// on the display and on the collision flag.
proof fn lemma_same_reach(
    s: MachineState,
    vx: int,
    vy: int,
    rows: int,
    l1: int,
    c1: int,
    l2: int,
    c2: int,
)
    requires
        forall|p: int|
            0 <= p < 2048 ==> reached(s, vx, vy, rows, l1, c1, p) == reached(
                s,
                vx,
                vy,
                rows,
                l2,
                c2,
                p,
            ),
    ensures
        hit_so_far(s, vx, vy, rows, l1, c1) == hit_so_far(s, vx, vy, rows, l2, c2),
        flipped_so_far(s, vx, vy, rows, l1, c1) == flipped_so_far(s, vx, vy, rows, l2, c2),
{
    if hit_so_far(s, vx, vy, rows, l1, c1) {
        let p = choose|p: int|
            0 <= p < 2048 && #[trigger] reached(s, vx, vy, rows, l1, c1, p) && s.framebuffer[p] != 0;
        assert(reached(s, vx, vy, rows, l2, c2, p));
    }
    if hit_so_far(s, vx, vy, rows, l2, c2) {
        let p = choose|p: int|
            0 <= p < 2048 && #[trigger] reached(s, vx, vy, rows, l2, c2, p) && s.framebuffer[p] != 0;
        assert(reached(s, vx, vy, rows, l1, c1, p));
    }
    assert(flipped_so_far(s, vx, vy, rows, l1, c1) =~= flipped_so_far(s, vx, vy, rows, l2, c2));
}

/// Reaching one more pixel `q` adds its old value to the collision flag.
proof fn lemma_reach_one_more(
    s: MachineState,
    vx: int,
    vy: int,
    rows: int,
    l: int,
    c: int,
    q: int,
)
    requires
        0 <= q < 2048,
        !reached(s, vx, vy, rows, l, c, q),
        reached(s, vx, vy, rows, l, c + 1, q),
        forall|p: int|
            0 <= p < 2048 && p != q ==> reached(s, vx, vy, rows, l, c, p) == reached(
                s,
                vx,
                vy,
                rows,
                l,
                c + 1,
                p,
            ),
    ensures
        hit_so_far(s, vx, vy, rows, l, c + 1) == (hit_so_far(s, vx, vy, rows, l, c)
            || s.framebuffer[q] != 0),
{
    if hit_so_far(s, vx, vy, rows, l, c) {
        let p = choose|p: int|
            0 <= p < 2048 && #[trigger] reached(s, vx, vy, rows, l, c, p) && s.framebuffer[p] != 0;
        assert(reached(s, vx, vy, rows, l, c + 1, p));
    }
    if s.framebuffer[q] != 0 {
        assert(reached(s, vx, vy, rows, l, c + 1, q));
    }
    if hit_so_far(s, vx, vy, rows, l, c + 1) {
        let p = choose|p: int|
            0 <= p < 2048 && #[trigger] reached(s, vx, vy, rows, l, c + 1, p) && s.framebuffer[p]
                != 0;
        if p != q {
            assert(reached(s, vx, vy, rows, l, c, p));
        }
    }
}

impl CPU {
    /// DXYN: draws the sprite of `height` rows at I at (VX, VY), flipping
    /// pixels, with VF telling whether a lit pixel was flipped.
    fn draw_sprite(&mut self, x: usize, y: usize, height: u8)
        requires
            x < 16,
            y < 16,
            height < 16,
            height == 0 || old(self).reg_i + height <= 4096,
        ensures
            final(self)@ == old(self)@.drawn(x as int, y as int, height as int),
    {
        let ghost s = old(self)@;
        self.registers[0xF] = 0;
        let vx = self.registers[x] as usize;
        let vy = self.registers[y] as usize;
        let ghost s0 = self@;
        let ghost rows = height as int;
        let mut line_num: u8 = 0;
        proof {
            assert(flipped_so_far(s, vx as int, vy as int, rows, 0, 0) =~= s.framebuffer);
        }
        while line_num < height
            invariant
                x < 16,
                y < 16,
                height < 16,
                height == 0 || s.reg_i + height <= 4096,
                vx == s0.reg(x as int),
                vy == s0.reg(y as int),
                rows == height,
                s0 == s.set_reg(15, 0),
                s.registers.len() == 16,
                s.framebuffer.len() == 2048,
                line_num <= height,
                self.memory@ == s.memory,
                self.reg_i == s.reg_i,
                self@.registers == s0.registers.update(
                    15,
                    if hit_so_far(s, vx as int, vy as int, rows, line_num as int, 0) { 1u8 } else { 0u8 },
                ),
                self.framebuffer@ == flipped_so_far(s, vx as int, vy as int, rows, line_num as int, 0),
                self.stack@ == s.stack,
                self.program_counter == s.pc,
                self.status == s.status,
                self.vram_dirty == s.vram_dirty,
                self.sound_timer == s.sound_timer,
                self.delay_timer == s.delay_timer,
                self.prev_keypad == s.prev_keypad,
            decreases height - line_num,
        {
            let line = self.memory[(self.reg_i + line_num as u16) as usize];
            let ghost l = line_num as int;
            let mut col: u8 = 0;
            while col < 8
                invariant_except_break
                    col <= 8,
                    self.framebuffer@ == flipped_so_far(s, vx as int, vy as int, rows, l, col as int),
                    self@.registers == s0.registers.update(
                        15,
                        if hit_so_far(s, vx as int, vy as int, rows, l, col as int) { 1u8 } else { 0u8 },
                    ),
                invariant
                    x < 16,
                    y < 16,
                    vx == s0.reg(x as int),
                    vy == s0.reg(y as int),
                    rows == height,
                    l == line_num,
                    line_num < height,
                    s.reg_i + height <= 4096,
                    line == s.memory[s.reg_i + l],
                    s0 == s.set_reg(15, 0),
                    s.registers.len() == 16,
                    s.framebuffer.len() == 2048,
                    self.memory@ == s.memory,
                    self.reg_i == s.reg_i,
                    self.stack@ == s.stack,
                    self.program_counter == s.pc,
                    self.status == s.status,
                    self.vram_dirty == s.vram_dirty,
                    self.sound_timer == s.sound_timer,
                    self.delay_timer == s.delay_timer,
                    self.prev_keypad == s.prev_keypad,
                ensures
                    self.framebuffer@ == flipped_so_far(s, vx as int, vy as int, rows, l, 8),
                    self@.registers == s0.registers.update(
                        15,
                        if hit_so_far(s, vx as int, vy as int, rows, l, 8) { 1u8 } else { 0u8 },
                    ),
                decreases 8 - col,
            {
                let ghost c = col as int;
                if line & (0x80u8 >> col) != 0 {
                    let index = (vx + col as usize) + (vy + line_num as usize) * WIDTH;
                    proof {
                        lemma_fundamental_div_mod_converse(
                            index as int - vx - vy * 64,
                            64,
                            l,
                            c,
                        );
                    }
                    if index >= FRAMEBUFFER_SIZE {
                        proof {
                            assert forall|p: int| 0 <= p < 2048 implies reached(
                                s,
                                vx as int,
                                vy as int,
                                rows,
                                l,
                                c,
                                p,
                            ) == reached(s, vx as int, vy as int, rows, l, 8, p) by {
                                lemma_fundamental_div_mod(p - vx - vy * 64, 64);
                            }
                            lemma_same_reach(s, vx as int, vy as int, rows, l, c, l, 8);
                        }
                        break;
                    }
                    assert(!reached(s, vx as int, vy as int, rows, l, c, index as int));
                    assert(reached(s, vx as int, vy as int, rows, l, c + 1, index as int));
                    if self.framebuffer[index] != 0 {
                        self.registers[0xF] = 1;
                    }
                    self.framebuffer[index] = self.framebuffer[index] ^ 1;
                    proof {
                        assert forall|p: int| 0 <= p < 2048 && p != index implies reached(
                            s,
                            vx as int,
                            vy as int,
                            rows,
                            l,
                            c,
                            p,
                        ) == reached(s, vx as int, vy as int, rows, l, c + 1, p) by {
                            lemma_fundamental_div_mod(p - vx - vy * 64, 64);
                        }
                        assert(self.framebuffer@ =~= flipped_so_far(
                            s,
                            vx as int,
                            vy as int,
                            rows,
                            l,
                            c + 1,
                        ));
                        lemma_reach_one_more(s, vx as int, vy as int, rows, l, c, index as int);
                        assert(self@.registers =~= s0.registers.update(
                            15,
                            if hit_so_far(s, vx as int, vy as int, rows, l, c + 1) { 1u8 } else { 0u8 },
                        ));
                    }
                } else {
                    proof {
                        assert forall|p: int| 0 <= p < 2048 implies reached(
                            s,
                            vx as int,
                            vy as int,
                            rows,
                            l,
                            c,
                            p,
                        ) == reached(s, vx as int, vy as int, rows, l, c + 1, p) by {
                            lemma_fundamental_div_mod(p - vx - vy * 64, 64);
                            if reached(s, vx as int, vy as int, rows, l, c + 1, p) && !reached(
                                s,
                                vx as int,
                                vy as int,
                                rows,
                                l,
                                c,
                                p,
                            ) {
                                assert(p - vx - vy * 64 == l * 64 + c);
                            }
                        }
                        assert(self.framebuffer@ =~= flipped_so_far(
                            s,
                            vx as int,
                            vy as int,
                            rows,
                            l,
                            c + 1,
                        ));
                        lemma_same_reach(s, vx as int, vy as int, rows, l, c, l, c + 1);
                    }
                }
                col = col + 1;
            }
            proof {
                assert forall|p: int| 0 <= p < 2048 implies reached(
                    s,
                    vx as int,
                    vy as int,
                    rows,
                    l,
                    8,
                    p,
                ) == reached(s, vx as int, vy as int, rows, l + 1, 0, p) by {
                    lemma_fundamental_div_mod(p - vx - vy * 64, 64);
                }
                lemma_same_reach(s, vx as int, vy as int, rows, l, 8, l + 1, 0);
            }
            line_num = line_num + 1;
        }
        proof {
            assert forall|p: int| 0 <= p < 2048 implies reached(
                s,
                vx as int,
                vy as int,
                rows,
                rows,
                0,
                p,
            ) == s.sprite_covers(vx as int, vy as int, rows, p) by {}
            assert(self.framebuffer@ =~= s.sprite_flipped(vx as int, vy as int, rows));
            if s.sprite_collides(vx as int, vy as int, rows) {
                let p = choose|p: int|
                    0 <= p < 2048 && #[trigger] s.sprite_covers(vx as int, vy as int, rows, p)
                        && s.framebuffer[p] != 0;
                assert(reached(s, vx as int, vy as int, rows, rows, 0, p));
            }
            if hit_so_far(s, vx as int, vy as int, rows, rows, 0) {
                let p = choose|p: int|
                    0 <= p < 2048 && #[trigger] reached(s, vx as int, vy as int, rows, rows, 0, p)
                        && s.framebuffer[p] != 0;
                assert(s.sprite_covers(vx as int, vy as int, rows, p));
            }
        }
        self.vram_dirty = true;
        assert(self@.registers =~= s.drawn(x as int, y as int, rows).registers);
    }
}


impl CPU {
    /// The FXNN instructions: timers, key wait, index register, decimal
    /// digits, and register blocks.
    fn misc(&mut self, x: usize, op2: u8, keypad: u16)
        requires
            x < 16,
            2 <= old(self).program_counter,
            op2 == 0x1E ==> old(self).reg_i + old(self).registers[x as int] <= 0xFFFF,
            op2 == 0x33 ==> old(self).reg_i + 2 < 4096,
            op2 == 0x55 || op2 == 0x65 ==> old(self).reg_i + x < 4096,
        ensures
            final(self)@ == old(self)@.misc(x as int, op2, keypad),
    {
        match op2 {
            0x07 => {
                self.registers[x] = self.delay_timer;
            },
            0x0A => {
                let newly_pressed = (keypad ^ self.prev_keypad) & keypad;
                if newly_pressed == 0 {
                    self.program_counter = self.program_counter - 2;
                } else {
                    let mut i: u16 = 0;
                    assert(newly_pressed >> 0u16 != 0) by (bit_vector)
                        requires
                            newly_pressed != 0,
                    ;
                    while i < 0x10
                        invariant_except_break
                            i < 16,
                            newly_pressed >> i != 0,
                            lowest_bit_from(newly_pressed, i as int) == lowest_bit(newly_pressed),
                            self@ == old(self)@,
                        invariant
                            x < 16,
                        ensures
                            self@ == old(self)@.set_reg(x as int, lowest_bit(newly_pressed) as u8),
                        decreases 16 - i,
                    {
                        if ((1u16 << i) & newly_pressed) != 0 {
                            assert(newly_pressed & (1u16 << i) != 0) by (bit_vector)
                                requires
                                    (1u16 << i) & newly_pressed != 0,
                            ;
                            self.registers[x] = i as u8;
                            assert(self@.registers =~= old(self)@.set_reg(
                                x as int,
                                lowest_bit(newly_pressed) as u8,
                            ).registers);
                            break;
                        }
                        assert(newly_pressed & (1u16 << i) == 0 && newly_pressed >> (i + 1) != 0)
                            by (bit_vector)
                            requires
                                i < 16,
                                newly_pressed >> i != 0,
                                (1u16 << i) & newly_pressed == 0,
                        ;
                        i = i + 1;
                        assert(i < 16) by (bit_vector)
                            requires
                                newly_pressed >> i != 0,
                        ;
                    }
                }
            },
            0x15 => {
                self.delay_timer = self.registers[x];
            },
            0x18 => {
                self.sound_timer = self.registers[x];
            },
            0x1E => {
                self.reg_i = self.reg_i + self.registers[x] as u16;
            },
            0x29 => {
                self.reg_i = ((self.registers[x] & 0xF) as u16) * 5;
                let v = self.registers[x];
                assert(v & 0xF == v % 16) by (bit_vector);
            },
            0x33 => {
                let value = self.registers[x];
                self.memory[(self.reg_i + 2) as usize] = value % 10;
                self.memory[(self.reg_i + 1) as usize] = (value / 10) % 10;
                self.memory[self.reg_i as usize] = (value / 100) % 10;
                assert(self@.memory =~= old(self)@.bcd_stored(x as int).memory);
            },
            0x55 => {
                let mut i: usize = 0;
                while i <= x
                    invariant
                        x < 16,
                        i <= x + 1,
                        old(self).reg_i + x < 4096,
                        self.reg_i == old(self).reg_i,
                        self@.registers == old(self)@.registers,
                        self@.memory == Seq::new(
                            4096,
                            |a: int|
                                if self.reg_i <= a < self.reg_i + i {
                                    old(self)@.registers[a - self.reg_i]
                                } else {
                                    old(self)@.memory[a]
                                },
                        ),
                        self@ == (MachineState { memory: self@.memory, ..old(self)@ }),
                    decreases x + 1 - i,
                {
                    self.memory[(self.reg_i + i as u16) as usize] = self.registers[i];
                    i = i + 1;
                    assert(self@.memory =~= Seq::new(
                        4096,
                        |a: int|
                            if self.reg_i <= a < self.reg_i + i {
                                old(self)@.registers[a - self.reg_i]
                            } else {
                                old(self)@.memory[a]
                            },
                    ));
                }
                assert(self@.memory =~= old(self)@.registers_stored(x as int).memory);
            },
            0x65 => {
                let mut i: usize = 0;
                while i <= x
                    invariant
                        x < 16,
                        i <= x + 1,
                        old(self).reg_i + x < 4096,
                        self@.registers == Seq::new(
                            16,
                            |k: int|
                                if k < i {
                                    old(self)@.memory[old(self).reg_i + k]
                                } else {
                                    old(self)@.registers[k]
                                },
                        ),
                        self@ == (MachineState { registers: self@.registers, ..old(self)@ }),
                    decreases x + 1 - i,
                {
                    self.registers[i] = self.memory[(self.reg_i + i as u16) as usize];
                    i = i + 1;
                    assert(self@.registers =~= Seq::new(
                        16,
                        |k: int|
                            if k < i {
                                old(self)@.memory[old(self).reg_i + k]
                            } else {
                                old(self)@.registers[k]
                            },
                    ));
                }
                assert(self@.registers =~= old(self)@.registers_loaded(x as int).registers);
            },
            _ => {},
        }
        assert(self@.registers =~= old(self)@.misc(x as int, op2, keypad).registers);
        assert(self@.memory =~= old(self)@.misc(x as int, op2, keypad).memory);
    }
}


/// Draws a byte from the thread-local generator of `rand` (`rand::random::<u8>()`).
/// Nothing is claimed of the byte beyond its type.
#[verifier::external_body]
fn random_byte() -> (b: u8) {
    rand::random::<u8>()
}

impl CPU {
    /// Executes the instruction with bytes `op1` (high) and `op2` (low), the
    /// program counter already past it.
    fn execute_instruction(&mut self, op1: u8, op2: u8, keypad: u16, random: u8)
        requires
            2 <= old(self).program_counter <= 4096,
            old(self)@.executable(op1, op2),
        ensures
            final(self)@ == old(self)@.execute(op1, op2, keypad, random),
    {
        let x = (op1 & 0xF) as usize;
        let y = (op2 >> 4) as usize;
        let kind = (op1 & 0xF0) >> 4;
        assert(op1 & 0xF == op1 % 16 && (op1 & 0xF0) >> 4 == op1 / 16 && op2 >> 4 == op2 / 16
            && op2 & 0xF == op2 % 16) by (bit_vector);
        match kind {
            0x0 => match op2 {
                0xE0 => {
                    self.framebuffer = [0u8; 2048];
                    self.vram_dirty = true;
                    assert(self@.framebuffer =~= old(self)@.cleared().framebuffer);
                },
                0xEE => self.ret_subroutine(),
                _ => {},
            },
            0x1 => {
                self.program_counter = nnn(op1, op2);
            },
            0x2 => self.call_subroutine(op1, op2),
            0x3 => {
                if self.registers[x] == op2 {
                    self.program_counter = self.program_counter + 2;
                }
            },
            0x4 => {
                if self.registers[x] != op2 {
                    self.program_counter = self.program_counter + 2;
                }
            },
            0x5 => {
                if (op2 & 0xF) == 0 {
                    if self.registers[x] == self.registers[y] {
                        self.program_counter = self.program_counter + 2;
                    }
                }
            },
            0x6 => {
                self.registers[x] = op2;
            },
            0x7 => {
                self.registers[x] = self.registers[x].wrapping_add(op2);
            },
            0x8 => self.alu(x, y, op2 & 0xF),
            0x9 => {
                if op2 & 0xF == 0 {
                    if self.registers[x] != self.registers[y] {
                        self.program_counter = self.program_counter + 2;
                    }
                }
            },
            0xA => {
                self.reg_i = nnn(op1, op2);
            },
            0xB => {
                self.program_counter = nnn(op1, op2) + (self.registers[0] as u16);
            },
            0xC => {
                self.registers[x] = random & op2;
            },
            0xD => self.draw_sprite(x, y, op2 & 0xF),
            0xE => {
                let keydown = keypad & (1u16 << self.registers[x]) != 0;
                match op2 {
                    0x9E => {
                        if keydown {
                            self.program_counter = self.program_counter + 2;
                        }
                    },
                    0xA1 => {
                        if !keydown {
                            self.program_counter = self.program_counter + 2;
                        }
                    },
                    _ => {},
                }
            },
            _ => self.misc(x, op2, keypad),
        }
        assert(self@.registers =~= old(self)@.execute(op1, op2, keypad, random).registers);
    }

    /// Runs one fetch-execute cycle with `keypad` the set of held keys (bit
    /// `k` for key `k`) and `random` the byte that CXNN masks. The instruction
    /// is the two bytes at the program counter, low byte first.
    pub fn execute_opcode_with_random(&mut self, keypad: u16, random: u8)
        requires
            old(self)@.can_step(),
        ensures
            final(self)@ == old(self)@.step(keypad, random),
    {
        let op2 = self.memory[self.program_counter as usize];
        let op1 = self.memory[self.program_counter as usize + 1];
        self.program_counter = self.program_counter + 2;
        self.execute_instruction(op1, op2, keypad, random);
        self.prev_keypad = keypad;
    }

    /// Runs one fetch-execute cycle with `keypad` the set of held keys (bit
    /// `k` for key `k`); CXNN draws its byte from the random generator.
    pub fn execute_opcode(&mut self, keypad: u16)
        requires
            old(self)@.can_step(),
        ensures
            exists|random: u8| final(self)@ == #[trigger] old(self)@.step(keypad, random),
            !old(self)@.uses_random() ==> final(self)@ == old(self)@.step(keypad, 0),
    {
        let op1 = self.memory[self.program_counter as usize + 1];
        let random = if (op1 & 0xF0) >> 4 == 0xC {
            random_byte()
        } else {
            0
        };
        proof {
            assert((op1 & 0xF0) >> 4 == op1 / 16) by (bit_vector);
        }
        self.execute_opcode_with_random(keypad, random);
        assert(self@ == old(self)@.step(keypad, random));
    }

    /// Whether the next fetch-execute cycle is defined: the instruction lies
    /// within memory and stays within memory, the stack and the shift widths.
    pub fn can_execute(&self) -> (ok: bool)
        ensures
            ok == self@.can_step(),
    {
        let pc = self.program_counter as usize;
        if pc + 1 >= MEMORY_SIZE {
            return false;
        }
        let op2 = self.memory[pc];
        let op1 = self.memory[pc + 1];
        let x = (op1 & 0xF) as usize;
        let kind = (op1 & 0xF0) >> 4;
        let n = op2 & 0xF;
        assert(op1 & 0xF == op1 % 16 && (op1 & 0xF0) >> 4 == op1 / 16 && op2 & 0xF == op2 % 16)
            by (bit_vector);
        let reg_i = self.reg_i as usize;
        if kind == 0x0 && op2 == 0xEE {
            self.stack.len() >= 2
        } else if kind == 0xD {
            n == 0 || reg_i + (n as usize) <= MEMORY_SIZE
        } else if kind == 0xE {
            self.registers[x] < 16
        } else if kind == 0xF && op2 == 0x1E {
            reg_i + (self.registers[x] as usize) <= 0xFFFF
        } else if kind == 0xF && op2 == 0x33 {
            reg_i + 2 < MEMORY_SIZE
        } else if kind == 0xF && (op2 == 0x55 || op2 == 0x65) {
            reg_i + x < MEMORY_SIZE
        } else {
            true
        }
    }
}


impl CPU {
    /// One tick of the 60 Hz timers: each timer that is above zero goes down
    /// by one.
    pub fn tick_timers(&mut self)
        ensures
            final(self)@ == old(self)@.ticked(),
    {
        if self.delay_timer > 0 {
            self.delay_timer = self.delay_timer - 1;
        }
        if self.sound_timer > 0 {
            self.sound_timer = self.sound_timer - 1;
        }
    }

    /// Whether the display pixel in column `x` and row `y` is lit.
    pub fn pixel_lit(&self, x: usize, y: usize) -> (lit: bool)
        requires
            x < WIDTH,
            y < HEIGHT,
        ensures
            lit == (self@.framebuffer[x + y * 64] != 0),
    {
        self.framebuffer[x + y * WIDTH] != 0
    }
}


impl CPU {
    /// The unsupported instruction at the program counter, if it is one:
    /// a machine code routine call (0NNN other than 00E0 and 00EE), or an
    /// 8XYN or FXNN form with no meaning. `None` also when the instruction
    /// does not lie within memory.
    pub fn unsupported_instruction(&self) -> (r: Option<Unsupported>)
        ensures
            r == (if self@.pc + 1 < 4096 {
                unsupported_form(self@.fetch_high(), self@.fetch_low())
            } else {
                None
            }),
    {
        let pc = self.program_counter as usize;
        if pc + 1 >= MEMORY_SIZE {
            return None;
        }
        let op2 = self.memory[pc];
        let op1 = self.memory[pc + 1];
        let kind = (op1 & 0xF0) >> 4;
        let n = op2 & 0xF;
        assert((op1 & 0xF0) >> 4 == op1 / 16 && op2 & 0xF == op2 % 16) by (bit_vector);
        if kind == 0x0 && op2 != 0xE0 && op2 != 0xEE {
            Some(Unsupported::MachineCodeRoutine)
        } else if kind == 0x8 && !(n <= 0x7 || n == 0xE) {
            Some(Unsupported::Opcode { high: op1, low: op2 })
        } else if kind == 0xF && !(op2 == 0x07 || op2 == 0x0A || op2 == 0x15 || op2 == 0x18 || op2
            == 0x1E || op2 == 0x29 || op2 == 0x33 || op2 == 0x55 || op2 == 0x65) {
            Some(Unsupported::Opcode { high: op1, low: op2 })
        } else {
            None
        }
    }
}

} // verus!
