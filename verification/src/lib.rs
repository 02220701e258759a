//! A small fantasy-console runtime: an 8-bit virtual machine with an
//! assembler front-end, a memory block standard library, and a tile/sprite
//! graphics subsystem that rasterizes a VRAM model into an RGBA framebuffer.

pub mod instructions;
pub mod util;
pub mod vm;
pub mod stdlib;
pub mod parser;
pub mod mmio;
pub mod gfx;
pub mod render;
