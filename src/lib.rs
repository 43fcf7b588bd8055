//! A CHIP-8 interpreter core: the virtual machine, the framebuffer it draws
//! into, and the small bridge that maps keys and gates the tone.

pub mod bridge;
pub mod display;
pub mod machine;
pub mod chip8;
