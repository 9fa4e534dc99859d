//! A CHIP-8 virtual machine whose instruction cycle is specified in `state`
//! and proved to be what `chip8::Chip8::step` does.

pub mod error;
pub mod font;
pub mod random;
pub mod state;
pub mod draw;
pub mod chip8;
pub mod laws;
