# chip8

A CHIP-8 virtual machine whose instruction set is verified with Verus.

- `src/machine.rs`: the mathematical model of the machine (`MachineState`),
  the decoding of instructions and the effect of one fetch-execute cycle
  (`MachineState::step`), with the condition under which a cycle is defined
  (`MachineState::can_step`), and the unsupported instruction forms
  (`unsupported_form`).
- `src/cpu.rs`: the executable machine (`CPU`), proved to follow the model.
  Instructions are fetched low byte first from the program counter; programs
  are loaded at address 0, where execution begins.
- `src/keypad.rs`: the host keyboard layout and the keypad bit set.
- `src/laws.rs`: properties that hold across instructions (call and return,
  store and load, drawing twice, invariants of every cycle).
- `app/`: the SDL front end, file reading and the endless interpreter loop.
