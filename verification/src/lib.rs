//! A CHIP-8 virtual machine core: instruction decoding, the machine state and
//! its fetch-decode-execute cycle, and the monochrome framebuffer.

pub mod display;
pub mod instruction;
pub mod machine;
pub mod text;
pub mod theorems;
