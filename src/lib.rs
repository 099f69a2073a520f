//! A verified CHIP-8 interpreter core: memory, registers, call stack, timers,
//! keypad, a 64×32 framebuffer, and the fetch-decode-execute step.
pub mod instruction;
pub mod display;
pub mod machine;
mod entropy;
pub mod laws;
