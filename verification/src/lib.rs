//! A translator from a line-oriented, stack-based virtual-machine
//! instruction language to Hack assembly text.
//!
//! The crate is organised as the data flows:
//! - [`text`] holds the character-level groundwork: whitespace
//!   classification, whitespace-separated tokenization, and decimal
//!   rendering and reading of numbers.
//! - [`command`] defines the instruction model ([`command::Segment`],
//!   [`command::Command`]) and the parser [`command::Command::from`].
//! - [`lexer`] classifies raw source lines into skippable lines (blank or
//!   comment) and lines that carry an instruction.
//! - [`converter`] maps each parsed instruction to assembly text and keeps
//!   the counters that make generated branch labels unique.

pub mod command;
pub mod converter;
pub mod lexer;
pub mod text;

