//! Visibly distinguishable characters and codes.
//!
//! - [`VDChar`]: one character of a curated alphabet that leaves out glyphs
//!   easily confused with one another (`O` and `0`, `I` and `1`).
//! - [`VDString`]: a validated, immutable sequence of `VDChar`s with its text.
//! - [`VDGenerator`]: a builder that samples random codes under repetition
//!   constraints, drawing from a [`RandomSource`].

pub mod vdchar;
pub mod vdstring;
pub mod generate;

pub use vdchar::{VDChar, VDS_ALLOWED, ALPHABET_SIZE};
pub use vdstring::{VDString, VDStringError};
pub use generate::{pick_distinct, symbol_from_draw, RandomSource, VDGenerator, VDGeneratorError, MAX_REDRAWS};
