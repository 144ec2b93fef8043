//! A CHIP-8 virtual machine: memory, display, keypad and the instruction
//! engine, with the behaviour of each instruction stated as a contract.

pub mod error;
pub mod memory;
pub mod keyboard;
pub mod display;
pub mod semantics;
pub mod cpu;
pub mod theorems;
pub mod disasm;
pub mod frame;
