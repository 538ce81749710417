use chip8::cpu::CPU;
use chip8::machine::Unsupported;

/// Lays out instructions as the machine fetches them: low byte first.
fn program(ops: &[u16]) -> Vec<u8> {
    let mut bytes = Vec::new();
    for op in ops {
        bytes.push((op & 0xFF) as u8);
        bytes.push((op >> 8) as u8);
    }
    bytes
}

fn machine_with(ops: &[u16]) -> CPU {
    let mut cpu = CPU::new();
    cpu.load_program(program(ops));
    cpu
}

#[test]
fn test_jmp() {
    let mut cpu = CPU::new();
    cpu.load_program(vec![0xDA, 0x1E]);

    assert_eq!(cpu.program_counter, 0, "Init Error: Program Counter not zero at initialization");

    cpu.execute_opcode(0);

    assert_eq!(cpu.program_counter, 0xEDA, "Instruction Error: The Jump Instruction is not working properly");
}

#[test]
fn test_subroutine() {
    let mut cpu = CPU::new();

    cpu.load_program(vec![0x06, 0x20, 0x00, 0x00, 0x00, 0x00, 0xEE, 0x00]);

    assert_eq!(cpu.program_counter, 0, "Init Error: Program Counter not zero at initialization");

    cpu.execute_opcode(0);
    assert_eq!(cpu.program_counter, 0x006, "Instruction Error: Subroutine not called");
    cpu.execute_opcode(0);
    assert_eq!(cpu.program_counter, 0x002, "Instruction Error: Program did not return from subroutine");
}

#[test]
fn new_machine_holds_the_font() {
    let cpu = CPU::new();
    assert_eq!(&cpu.memory[0..5], &[0xF0, 0x90, 0x90, 0x90, 0xF0]);
    assert_eq!(&cpu.memory[75..80], &[0xF0, 0x80, 0xF0, 0x80, 0x80]);
    assert!(cpu.memory[80..].iter().all(|b| *b == 0));
    assert_eq!(cpu.registers, [0; 16]);
    assert!(cpu.stack.is_empty());
    assert!(cpu.vram_dirty);
    assert!(cpu.framebuffer.iter().all(|p| *p == 0));
    assert_eq!(cpu.reg_i, 0);
    assert_eq!(cpu.delay_timer, 0);
    assert_eq!(cpu.sound_timer, 0);
}

#[test]
fn load_program_copies_bytes_to_the_start() {
    let mut cpu = CPU::new();
    cpu.load_program(vec![1, 2, 3]);
    assert_eq!(&cpu.memory[0..4], &[1, 2, 3, 0x90]);
    let mut full = CPU::new();
    full.load_program(vec![7; 4096]);
    assert!(full.memory.iter().all(|b| *b == 7));
}

#[test]
fn subroutine_pushes_return_address_low_byte_first() {
    let mut cpu = machine_with(&[0x6000, 0x2345]);
    cpu.execute_opcode(0);
    cpu.execute_opcode(0);
    assert_eq!(cpu.stack, vec![0x04, 0x00]);
    assert_eq!(cpu.program_counter, 0x345);
}

#[test]
fn call_then_return_restores_stack() {
    let mut cpu = machine_with(&[0x2004, 0x0000, 0x00EE]);
    cpu.stack = vec![9, 8];
    cpu.execute_opcode(0);
    cpu.execute_opcode(0);
    assert_eq!(cpu.program_counter, 2);
    assert_eq!(cpu.stack, vec![9, 8]);
}

#[test]
fn clear_screen_turns_every_pixel_off() {
    let mut cpu = machine_with(&[0x00E0]);
    cpu.framebuffer[5] = 1;
    cpu.vram_dirty = false;
    cpu.execute_opcode(0);
    assert!(cpu.framebuffer.iter().all(|p| *p == 0));
    assert!(cpu.vram_dirty);
    assert_eq!(cpu.program_counter, 2);
}

#[test]
fn machine_routine_call_is_skipped() {
    let mut cpu = machine_with(&[0x0123]);
    cpu.execute_opcode(0);
    assert_eq!(cpu.program_counter, 2);
    assert_eq!(cpu.registers, [0; 16]);
}

#[test]
fn skip_if_equal_and_not_equal() {
    let mut cpu = machine_with(&[0x3A05, 0x0000, 0x4A05, 0x3A06]);
    cpu.registers[0xA] = 5;
    cpu.execute_opcode(0);
    assert_eq!(cpu.program_counter, 4);
    cpu.execute_opcode(0);
    assert_eq!(cpu.program_counter, 6);
    cpu.execute_opcode(0);
    assert_eq!(cpu.program_counter, 8);
}

#[test]
fn skip_on_register_equality() {
    let mut cpu = machine_with(&[0x5120, 0x0000, 0x9120, 0x5121]);
    cpu.registers[1] = 3;
    cpu.registers[2] = 3;
    cpu.execute_opcode(0);
    assert_eq!(cpu.program_counter, 4);
    cpu.execute_opcode(0);
    assert_eq!(cpu.program_counter, 6);
    cpu.execute_opcode(0);
    assert_eq!(cpu.program_counter, 8, "5XYN with N other than 0 does nothing");
    let mut other = machine_with(&[0x9120]);
    other.registers[1] = 1;
    other.execute_opcode(0);
    assert_eq!(other.program_counter, 4);
}

#[test]
fn load_and_add_immediate_wraps() {
    let mut cpu = machine_with(&[0x63FF, 0x7302]);
    cpu.execute_opcode(0);
    assert_eq!(cpu.registers[3], 0xFF);
    cpu.execute_opcode(0);
    assert_eq!(cpu.registers[3], 0x01);
    assert_eq!(cpu.registers[0xF], 0, "7XNN leaves VF alone");
}

fn alu(op: u16, vx: u8, vy: u8) -> CPU {
    let mut cpu = machine_with(&[op]);
    cpu.registers[1] = vx;
    cpu.registers[2] = vy;
    cpu.execute_opcode(0);
    cpu
}

#[test]
fn logic_instructions() {
    assert_eq!(alu(0x8120, 1, 9).registers[1], 9);
    assert_eq!(alu(0x8121, 0b1100, 0b1010).registers[1], 0b1110);
    assert_eq!(alu(0x8122, 0b1100, 0b1010).registers[1], 0b1000);
    assert_eq!(alu(0x8123, 0b1100, 0b1010).registers[1], 0b0110);
    assert_eq!(alu(0x8129, 4, 5).registers[1], 4, "unknown 8XYN does nothing");
}

#[test]
fn add_sets_carry() {
    let cpu = alu(0x8124, 200, 100);
    assert_eq!(cpu.registers[1], 44);
    assert_eq!(cpu.registers[0xF], 1);
    let cpu = alu(0x8124, 20, 100);
    assert_eq!(cpu.registers[1], 120);
    assert_eq!(cpu.registers[0xF], 0);
}

#[test]
fn subtract_sets_not_borrow() {
    let cpu = alu(0x8125, 10, 3);
    assert_eq!(cpu.registers[1], 7);
    assert_eq!(cpu.registers[0xF], 1);
    let cpu = alu(0x8125, 3, 10);
    assert_eq!(cpu.registers[1], 249);
    assert_eq!(cpu.registers[0xF], 0);
}

#[test]
fn reverse_subtract_sets_borrow() {
    let cpu = alu(0x8127, 10, 3);
    assert_eq!(cpu.registers[1], 249);
    assert_eq!(cpu.registers[0xF], 1);
    let cpu = alu(0x8127, 3, 10);
    assert_eq!(cpu.registers[1], 7);
    assert_eq!(cpu.registers[0xF], 0);
}

#[test]
fn shifts_keep_the_lost_bit() {
    let cpu = alu(0x8126, 0b101, 0);
    assert_eq!(cpu.registers[1], 0b10);
    assert_eq!(cpu.registers[0xF], 1);
    let cpu = alu(0x812E, 0b1100_0001, 0);
    assert_eq!(cpu.registers[1], 0b1000_0010);
    assert_eq!(cpu.registers[0xF], 1);
    let cpu = alu(0x812E, 0b0100_0001, 0);
    assert_eq!(cpu.registers[1], 0b1000_0010);
    assert_eq!(cpu.registers[0xF], 0);
}

#[test]
fn shift_of_vf_itself_clears_it() {
    let mut cpu = machine_with(&[0x8F06]);
    cpu.registers[0xF] = 3;
    cpu.execute_opcode(0);
    assert_eq!(cpu.registers[0xF], 0);
}

#[test]
fn index_and_jump_with_offset() {
    let mut cpu = machine_with(&[0xA123, 0xB200]);
    cpu.registers[0] = 0x10;
    cpu.execute_opcode(0);
    assert_eq!(cpu.reg_i, 0x123);
    cpu.execute_opcode(0);
    assert_eq!(cpu.program_counter, 0x210);
}

#[test]
fn random_is_masked() {
    let mut cpu = machine_with(&[0xC500]);
    cpu.registers[5] = 0xAA;
    cpu.execute_opcode(0);
    assert_eq!(cpu.registers[5], 0);
    let mut cpu = machine_with(&[0xC50F]);
    cpu.execute_opcode_with_random(0, 0xAB);
    assert_eq!(cpu.registers[5], 0x0B);
    assert_eq!(cpu.program_counter, 2);
}

#[test]
fn draw_sprite_and_collision() {
    let mut cpu = machine_with(&[0xD012, 0xD012]);
    cpu.reg_i = 0x100;
    cpu.memory[0x100] = 0b1000_0001;
    cpu.memory[0x101] = 0b0100_0000;
    cpu.registers[0] = 2;
    cpu.registers[1] = 3;
    cpu.vram_dirty = false;
    cpu.execute_opcode(0);
    let lit: Vec<usize> = (0..2048).filter(|i| cpu.framebuffer[*i] != 0).collect();
    assert_eq!(lit, vec![2 + 3 * 64, 9 + 3 * 64, 3 + 4 * 64]);
    assert_eq!(cpu.registers[0xF], 0);
    assert!(cpu.vram_dirty);
    cpu.execute_opcode(0);
    assert!(cpu.framebuffer.iter().all(|p| *p == 0), "drawing twice erases the sprite");
    assert_eq!(cpu.registers[0xF], 1);
}

#[test]
fn draw_wraps_to_next_line_and_stops_at_bottom() {
    let mut cpu = machine_with(&[0xD011]);
    cpu.reg_i = 0x100;
    cpu.memory[0x100] = 0xFF;
    cpu.registers[0] = 62;
    cpu.registers[1] = 31;
    cpu.execute_opcode(0);
    let lit: Vec<usize> = (0..2048).filter(|i| cpu.framebuffer[*i] != 0).collect();
    assert_eq!(lit, vec![2046, 2047]);
    assert!(cpu.can_execute() || cpu.program_counter == 2);
}

#[test]
fn draw_font_digit() {
    let mut cpu = machine_with(&[0x6007, 0xF029, 0x6100, 0xD115]);
    cpu.execute_opcode(0);
    cpu.execute_opcode(0);
    assert_eq!(cpu.reg_i, 35);
    cpu.execute_opcode(0);
    cpu.execute_opcode(0);
    // glyph 7: F0 10 20 40 40
    let row = |y: usize| -> Vec<u8> { (0..8).map(|x| cpu.framebuffer[x + y * 64]).collect() };
    assert_eq!(row(0), vec![1, 1, 1, 1, 0, 0, 0, 0]);
    assert_eq!(row(1), vec![0, 0, 0, 1, 0, 0, 0, 0]);
    assert_eq!(row(4), vec![0, 1, 0, 0, 0, 0, 0, 0]);
    assert!(cpu.pixel_lit(0, 0));
    assert!(!cpu.pixel_lit(4, 0));
}

#[test]
fn key_skips() {
    let mut cpu = machine_with(&[0xE39E, 0x0000, 0xE3A1]);
    cpu.registers[3] = 4;
    cpu.execute_opcode(1 << 4);
    assert_eq!(cpu.program_counter, 4);
    cpu.execute_opcode(1 << 4);
    assert_eq!(cpu.program_counter, 6);
    let mut cpu = machine_with(&[0xE3A1]);
    cpu.registers[3] = 4;
    cpu.execute_opcode(0);
    assert_eq!(cpu.program_counter, 4);
    assert_eq!(cpu.prev_keypad, 0);
}

#[test]
fn wait_for_key() {
    let mut cpu = machine_with(&[0xF20A]);
    cpu.execute_opcode(0);
    assert_eq!(cpu.program_counter, 0, "no key: the instruction repeats");
    cpu.execute_opcode(1 << 9);
    assert_eq!(cpu.program_counter, 2);
    assert_eq!(cpu.registers[2], 9);
    assert_eq!(cpu.prev_keypad, 1 << 9);

    let mut held = machine_with(&[0xF20A]);
    held.prev_keypad = 1 << 9;
    held.execute_opcode((1 << 9) | (1 << 12) | (1 << 14));
    assert_eq!(held.registers[2], 12, "the lowest newly pressed key");
    let mut still = machine_with(&[0xF20A]);
    still.prev_keypad = 1 << 9;
    still.execute_opcode(1 << 9);
    assert_eq!(still.program_counter, 0, "a key held since before does not count");
}

#[test]
fn timers_and_index() {
    let mut cpu = machine_with(&[0x6A30, 0xFA15, 0xFA18, 0xFB07, 0xAFFF, 0xFA1E]);
    for _ in 0..4 {
        cpu.execute_opcode(0);
    }
    assert_eq!(cpu.delay_timer, 0x30);
    assert_eq!(cpu.sound_timer, 0x30);
    assert_eq!(cpu.registers[0xB], 0x30);
    cpu.execute_opcode(0);
    cpu.execute_opcode(0);
    assert_eq!(cpu.reg_i, 0xFFF + 0x30);
}

#[test]
fn decimal_digits() {
    let mut cpu = machine_with(&[0xF533]);
    cpu.registers[5] = 254;
    cpu.reg_i = 0x300;
    cpu.execute_opcode(0);
    assert_eq!(&cpu.memory[0x300..0x303], &[2, 5, 4]);
}

#[test]
fn store_and_load_registers() {
    let mut cpu = machine_with(&[0xF255, 0xF365]);
    cpu.registers[0] = 10;
    cpu.registers[1] = 11;
    cpu.registers[2] = 12;
    cpu.registers[3] = 13;
    cpu.reg_i = 0x400;
    cpu.memory[0x403] = 99;
    cpu.execute_opcode(0);
    assert_eq!(&cpu.memory[0x400..0x404], &[10, 11, 12, 99]);
    cpu.execute_opcode(0);
    assert_eq!(&cpu.registers[0..4], &[10, 11, 12, 99]);
    assert_eq!(cpu.reg_i, 0x400, "I is left unchanged");
}

#[test]
fn unknown_f_instruction_does_nothing() {
    let mut cpu = machine_with(&[0xF599]);
    let before = cpu.registers;
    cpu.execute_opcode(0);
    assert_eq!(cpu.registers, before);
    assert_eq!(cpu.program_counter, 2);
}

#[test]
fn timers_tick_down_to_zero() {
    let mut cpu = CPU::new();
    cpu.delay_timer = 2;
    cpu.sound_timer = 1;
    cpu.tick_timers();
    assert_eq!((cpu.delay_timer, cpu.sound_timer), (1, 0));
    cpu.tick_timers();
    assert_eq!((cpu.delay_timer, cpu.sound_timer), (0, 0));
    cpu.tick_timers();
    assert_eq!((cpu.delay_timer, cpu.sound_timer), (0, 0));
}

#[test]
fn undefined_steps_are_reported() {
    let ret = machine_with(&[0x00EE]);
    assert!(!ret.can_execute(), "return with an empty stack");
    let mut end = CPU::new();
    end.program_counter = 4095;
    assert!(!end.can_execute());
    let mut key = machine_with(&[0xE09E]);
    key.registers[0] = 16;
    assert!(!key.can_execute());
    let mut bcd = machine_with(&[0xF033]);
    bcd.reg_i = 4094;
    assert!(!bcd.can_execute());
    let mut store = machine_with(&[0xF355]);
    store.reg_i = 4093;
    assert!(!store.can_execute());
    store.reg_i = 4092;
    assert!(store.can_execute());
    let mut draw = machine_with(&[0xD003]);
    draw.reg_i = 4094;
    assert!(!draw.can_execute());
    draw.reg_i = 4093;
    assert!(draw.can_execute());
    let mut add = machine_with(&[0xF01E]);
    add.reg_i = 0xFFFF;
    add.registers[0] = 1;
    assert!(!add.can_execute());
    assert!(machine_with(&[0x1000]).can_execute());
}

#[test]
fn display_stays_binary_after_overlapping_draws() {
    let mut cpu = machine_with(&[0xD015, 0x6003, 0xD015, 0x00E0, 0xD015]);
    cpu.execute_opcode(0);
    cpu.execute_opcode(0);
    cpu.execute_opcode(0);
    assert!(cpu.framebuffer.iter().all(|p| *p <= 1));
    assert_eq!(cpu.registers[0xF], 1);
    cpu.execute_opcode(0);
    cpu.execute_opcode(0);
    assert!(cpu.framebuffer.iter().all(|p| *p <= 1));
    assert_eq!(cpu.registers[0xF], 0);
}

#[test]
fn random_byte_only_matters_for_cxnn() {
    let mut a = machine_with(&[0x7105]);
    let mut b = machine_with(&[0x7105]);
    a.execute_opcode_with_random(0, 1);
    b.execute_opcode_with_random(0, 200);
    assert_eq!(a.registers, b.registers);
    assert_eq!(a.program_counter, b.program_counter);
    let mut c = machine_with(&[0xC1FF]);
    let mut d = machine_with(&[0xC1FF]);
    c.execute_opcode_with_random(0, 1);
    d.execute_opcode_with_random(0, 200);
    assert_eq!((c.registers[1], d.registers[1]), (1, 200));
}

#[test]
fn unsupported_instructions_are_reported_and_skipped() {
    let cpu = machine_with(&[0x0123]);
    assert_eq!(cpu.unsupported_instruction(), Some(Unsupported::MachineCodeRoutine));
    let cpu = machine_with(&[0x8128]);
    assert_eq!(cpu.unsupported_instruction(), Some(Unsupported::Opcode { high: 0x81, low: 0x28 }));
    let cpu = machine_with(&[0xF599]);
    assert_eq!(cpu.unsupported_instruction(), Some(Unsupported::Opcode { high: 0xF5, low: 0x99 }));
    assert_eq!(machine_with(&[0x00E0]).unsupported_instruction(), None);
    assert_eq!(machine_with(&[0x812E]).unsupported_instruction(), None);
    assert_eq!(machine_with(&[0xF565]).unsupported_instruction(), None);
    assert_eq!(machine_with(&[0x5121]).unsupported_instruction(), None);
    let mut end = CPU::new();
    end.program_counter = 4095;
    assert_eq!(end.unsupported_instruction(), None);

    let mut cpu = machine_with(&[0x812B]);
    cpu.registers[1] = 4;
    cpu.stack = vec![1, 2];
    cpu.execute_opcode(3);
    assert_eq!(cpu.registers[1], 4);
    assert_eq!(cpu.program_counter, 2);
    assert_eq!(cpu.stack, vec![1, 2]);
    assert_eq!(cpu.prev_keypad, 3);
}

#[test]
fn call_return_round_trip_on_concrete_state() {
    let mut cpu = machine_with(&[0x2ABC]);
    cpu.program_counter = 0x300;
    cpu.memory[0x300] = 0xBC;
    cpu.memory[0x301] = 0x2A;
    cpu.memory[0xABC] = 0xEE;
    cpu.memory[0xABD] = 0x00;
    cpu.execute_opcode(0);
    assert_eq!(cpu.program_counter, 0xABC);
    cpu.execute_opcode(0);
    assert_eq!(cpu.program_counter, 0x302);
    assert!(cpu.stack.is_empty());
}
