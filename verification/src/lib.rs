//! A 32-bit Mach-O reader and a small x86 interpreter.
//!
//! The crate is split the way the data flows: `bytes` holds little-endian
//! decoding, `macho` the structured model of a parsed binary, `parser` the
//! reader that turns raw bytes into that model, and `vm` the execution
//! engine that loads a parsed binary into a flat memory image and runs its
//! text section until the program exits or faults.

pub mod bytes;
pub mod errors;
pub mod macho;
pub mod parser;
pub mod vm;
