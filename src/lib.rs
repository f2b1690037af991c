//! A CHIP-8 virtual machine: the fetch-decode-execute engine and the state it owns.
//!
//! `model` states what one instruction cycle does, over a mathematical view of the
//! machine; `machine` is the executable engine, proved against it; `laws` holds
//! properties of the cycle that span several instructions or every input.

pub mod laws;
pub mod machine;
pub mod model;

pub use machine::{Chip8, Fault, Outcome};
pub use model::{MachineState, MAX_PROGRAM_LEN};
