//! Decoder for the Levelance envelope format: a bracketed text encoding in
//! which a body of three-letter symbol groups, optionally interleaved with a
//! pass-through `.` delimiter, is turned into a string of decimal digits.
//!
//! The pipeline is: tokenize the raw input into groups and delimiter markers
//! (`parse`), evaluate each group to one digit with a per-symbol arithmetic
//! rule table (`LevelanceChunks::decode`), and reassemble the output in input
//! order (`decode`).

mod chunk;
mod letter;
mod tokenize;

pub use chunk::Chunk;
pub use chunk::LevelanceChunks;
pub use letter::Letter;
pub use letter::Transform;
pub use tokenize::decode;
pub use tokenize::parse;
pub use tokenize::DecodeError;
