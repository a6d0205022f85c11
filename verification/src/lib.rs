//! A two-pass assembler for a MIPS R3000-style instruction set.
//!
//! The library turns normalized instruction, label and data-directive records
//! into 32-bit machine words and byte buffers, resolves symbolic labels
//! (including forward references), enforces per-type address alignment, and
//! packages the code and data segments into a minimal loadable binary image.

pub mod argument_bundle;
pub mod codegen;
pub mod data;
pub mod errors;
pub mod instruction;
pub mod laws;
pub mod layout;
pub mod opcodes;
pub mod preprocess;
pub mod relf_headers;
pub mod strutil;
pub mod tag_resolution;
