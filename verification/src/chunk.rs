//! The record codecs, one module for each kind of record.

pub mod cel_extra_chunk;
pub mod color_profile_chunk;
