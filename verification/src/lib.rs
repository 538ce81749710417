//! A CHIP-8 virtual machine whose instruction semantics are proved against
//! a mathematical model of the machine state.

pub mod machine;
pub mod cpu;
pub mod keypad;
pub mod laws;
pub mod instruction_laws;
