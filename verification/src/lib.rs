//! A verified CHIP-8 interpreter core.
//!
//! The machine state (memory, registers, stack, framebuffer, input latch,
//! timers) is modelled by the ghost type [`model::Machine`], and every opcode
//! of the instruction set is given exact semantics by the specification
//! function [`model::step_spec`]. The executable interpreter in [`emulator`]
//! is proved to implement those semantics step for step.
//!
//! Two behaviours that vary between interpreters are fixed here as follows.
//! A step never blocks: the key-wait instruction re-checks the input latch
//! on every step and leaves the machine unchanged (program counter
//! included) until the host has pressed a key. And stepping never moves the
//! timers: the host drives [`emulator::Chip8Emulator::advance_timers`] at
//! its own cadence, conventionally 60 Hz, independent of the instruction
//! rate.

pub mod emulator;
pub mod laws;
pub mod model;

pub use emulator::Chip8Emulator;
pub use model::Fault;
pub use model::Machine;
