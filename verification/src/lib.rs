//! A CHIP-8 virtual machine: instruction decoding, the per-opcode state
//! transitions, sprite drawing with wrap-around and collision detection, and
//! the instruction-paced countdown timers.
//!
//! - `decode` takes instruction words apart.
//! - `screen` is the framebuffer and the meaning of drawing a sprite.
//! - `font` is the built-in hexadecimal font.
//! - `machine` is the mathematical model: the state of a machine and what
//!   each instruction, the timer tick and a whole step do to it.
//! - `chip8` is the executable machine, specified against the model.
//! - `laws` proves properties of the model that hold for every state.
//! - `reader` lays a program out in memory, `keypad` turns key states into a
//!   key set, and `bench` steps a machine against the clock.

pub mod bench;
pub mod chip8;
pub mod decode;
pub mod font;
mod host;
pub mod keypad;
pub mod laws;
pub mod machine;
pub mod reader;
pub mod screen;
