//! What the grammar implies, proved once and for all.
//!
//! Each module holds the laws of one part of the grammar: [`blanks`] for
//! whitespace and comments, [`operators`], [`words`] for identifiers,
//! reserved words and numbers, [`strings`], [`positions`] for lines and
//! columns, and [`pulls`] for what holds of every pull. [`reading`] holds
//! the lemmas that they share.

pub mod blanks;
pub mod operators;
pub mod positions;
pub mod pulls;
pub mod reading;
pub mod strings;
pub mod words;
