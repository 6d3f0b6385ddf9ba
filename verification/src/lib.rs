//! Backend of an ahead-of-time compiler: turns already-encoded procedures
//! into a relocatable ELF object — sections, symbols and relocation records
//! held in a binary container — and computes the exact external-tool command
//! lines that rebuild the per-target host runtime and link everything into
//! an executable.

pub mod builder;
pub mod errors;
pub mod ir;
pub mod laws;
pub mod link;
pub mod mangle;
pub mod objfile;
pub mod target;
