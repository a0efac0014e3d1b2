//! A small engine for single-lineage hill climbing, with two example problems:
//! recovering a target string and maximizing the set bits of a vector.

pub mod engine;
pub mod ones;
pub mod random;
pub mod strings;
pub mod text;

pub use engine::{Config, Evolution, Run};
pub use ones::{Genes, OneMaximizer};
pub use strings::StringGuesser;
