//! An interpreter for the CHIP-8 virtual machine: memory and registers, the
//! instruction decoder, the semantics of each instruction, the XOR sprite
//! compositor, and the per-frame scheduling decision. Window, keyboard and
//! sound are left to the caller.
use vstd::prelude::*;

pub mod cpu;
pub mod display;
pub mod instruction;
pub mod keypad;
pub mod lemmas;

verus! {

} // verus!
