//! An instruction-set simulator core for a RISC-V style processor.
//!
//! The crate models the fetch, decode and execute steps of the base integer
//! instruction set and of the compressed 16-bit extension. Its functions are
//! verified against a mathematical model of the architectural state. The one
//! part that is called and not verified is the parser of executable files,
//! which the loader wraps.

pub mod assemble;
pub mod decode;
pub mod error;
pub mod instructions;
pub mod loader;
pub mod mmu;
pub mod processor;
pub mod utils;
