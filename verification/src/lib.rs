//! A numeral-system library: it re-encodes unsigned 128-bit integers as
//! strings over a configurable ASCII digit alphabet. An option set selects
//! which character blocks form the alphabet (the corpus); the converter
//! expresses an integer positionally in the radix the corpus length defines,
//! most significant digit first.
pub mod alphabet;
pub mod args;
pub mod convert;
pub mod trim;

pub use alphabet::{RadixLetters, RadixNumbers, RadixSettings, RadixSymbols};
pub use args::parse_radix_arg;
pub use convert::{AsciiConverter, BaseConvertIter};
pub use trim::TrimAsciiControlCharacters;
