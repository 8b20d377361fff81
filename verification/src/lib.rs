//! The machine of a small DOS emulator: a 16-bit processor with its loaders,
//! a 386/486 protected mode processor, the drives and disk images behind
//! them, and the parts of a debugger that decide something.
//!
//! Every item of the library is verified. What does I/O lives around it, in
//! an application that hands the library plain values.

mod bits;
pub mod bus;
pub mod cpu;
pub mod debug;
pub mod decode;
pub mod disk;
pub mod diskimage;
pub mod diskio;
pub mod disknoise;
pub mod display;
pub mod f80;
pub mod i86;
pub mod picture;
pub mod text;
