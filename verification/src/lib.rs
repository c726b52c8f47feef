//! A verified CHIP-8 interpreter core.
//!
//! The machine state, the fetch-decode-execute cycle and the full base
//! instruction set live here, each with a contract proved by Verus.
//! Rendering, keyboard handling and the command line are left to the host.

#![allow(non_snake_case)]

pub mod decode;
pub mod keymap;
pub mod laws;
pub mod logbuf;
pub mod machine;
pub mod model;
pub mod ops;
pub mod sprites;

pub use decode::Chip8Error;
pub use logbuf::LogBuf;
pub use machine::Chip8;
