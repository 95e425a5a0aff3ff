//! A CHIP-8 virtual machine core: an interpreter over a 4096-byte address
//! space, two 60 Hz countdown timers, a 16-key input state, and a 64x32
//! monochrome framebuffer with XOR-sprite semantics.
//!
//! The surrounding program supplies the clocks and the key events; every
//! state transition of the machine itself is defined and verified here.

pub mod framebuffer;
pub mod input;
pub mod processor;
pub mod timers;

use vstd::prelude::*;

verus! {

} // verus!
