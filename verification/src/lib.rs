//! A pull-based lexical scanner: source text in, positioned tokens and
//! lexical errors out.
//!
//! [`scan::Scanner`] is the scanner and [`scan::Token`] what it yields;
//! [`error::Error`] describes a lexical failure. [`grammar`] says in
//! mathematical terms what one pull does, and the scanner is proved to do
//! exactly that. [`laws`] holds what follows from the grammar for comments,
//! strings, words, numbers, operators and positions. [`classify`] sorts
//! characters into the classes of the grammar, and [`text`] holds helpers on
//! strings.

pub mod classify;
pub mod error;
pub mod grammar;
pub mod laws;
pub mod scan;
pub mod text;
