//! A CHIP-8 virtual machine: opcode decoding, the CPU state machine,
//! and the memory/display/keypad interconnect, with verified contracts.

pub mod cpu;
pub mod errors;
pub mod interconnect;
pub mod opcodes;
pub mod register;
pub mod timing;
