//! Binary codecs for two records of a layered sprite file: the cel record
//! that refines a cel's bounds with sub-pixel precision, and the colour
//! profile record. Every codec works on a [`cursor::ByteCursor`], an
//! addressable in-memory byte buffer with a position.

pub mod chunk;
pub mod cursor;
pub mod endian;
pub mod error;
pub mod fixed_point;
pub mod helpers;
