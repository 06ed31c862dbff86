//! Lookup decomposition of a fixed decision-tree instruction for a lookup-based zkVM:
//! subtables with their multilinear extensions, instructions that split operands into
//! subtable indices and recombine the looked-up values, virtual instruction sequences
//! that bind untrusted advice, and the catalogs that give every member a stable id.

pub mod bits;
pub mod field;
pub mod instruction;
pub mod mle;
pub mod poly;
pub mod registry;
pub mod sequence;
pub mod subtable;
pub mod tree;
pub mod virtual_instruction;
