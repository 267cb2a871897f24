//! A verified CHIP-8 virtual machine core: instruction decoding, CPU
//! fetch-decode-execute semantics, XOR sprite compositing with collision
//! detection, memory, keyboard snapshot, and tick scheduling.
//!
//! Window creation, pixel presentation and keyboard event sourcing are left
//! to a host program; the core only consumes plain input state and produces
//! a logical framebuffer.

pub mod clock;
pub mod cpu;
pub mod display;
pub mod keyboard;
pub mod machine;
pub mod memory;
pub mod opcode;
