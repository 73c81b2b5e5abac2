//! A verified interpreter for the CHIP-8 instruction set.
//!
//! The crate holds the machine itself: memory, the register file, the
//! frame buffer, the key state, and the fetch/decode/execute step. What
//! surrounds it at run time (a window, an audio device, a keyboard event
//! pump, a file picker) is left to the embedding program, which hands the
//! interpreter plain values and takes plain values back.

pub mod constants;
pub mod cpu;
pub mod error;
pub mod laws;
pub mod memory;
pub mod model;
pub mod registers;
