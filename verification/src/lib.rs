//! A decoder for the PMX binary model format.
//!
//! The format stores header metadata, vertex geometry with bone-weight
//! blending, triangle surface indices, texture references and material
//! definitions. The header declares, once, the text encoding and the byte
//! widths of every index kind; every later section is laid out according to
//! those global parameters. Decoding runs strictly forward over a
//! [`cursor::ByteCursor`] and either produces a validated in-memory model or
//! the first error encountered.
//!
//! Floating-point fields (positions, weights, the version number) are kept
//! as their raw IEEE-754 little-endian bit patterns ([`types::F32Bits`]); the
//! decoder never does floating-point arithmetic, so each stored pattern is
//! exactly the one on disk.

pub mod cursor;

pub mod material;

pub mod pmx;

pub mod surface;

pub mod texture;

pub mod types;

pub mod util;

pub mod vertex;
