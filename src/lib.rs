//! A CHIP-8 interpreter whose instruction semantics are stated as a
//! mathematical model of the machine and proved of the implementation.

use vstd::prelude::*;

pub mod chip8;
pub mod instruction;
pub mod laws;
pub mod machine;

pub use chip8::Chip8;
pub use instruction::{decode, Instruction};
pub use machine::{
    Chip8Error, DISPLAY_HEIGHT, DISPLAY_SIZE, DISPLAY_WIDTH, KEY_COUNT, MAX_ROM_SIZE, MEMORY_SIZE,
    START_ADDRESS,
};

verus! {

} // verus!
