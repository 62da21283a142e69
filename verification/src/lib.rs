//! A CHIP-8 virtual machine: instruction decoding, the opcode state machine,
//! the timer cadence and the framebuffer, each with a verified contract.

pub mod display;
pub mod engine;
pub mod instruction;
pub mod laws;
mod random;
pub mod state;
pub mod timing;
