//! The language side of a calculator for quantities with units.
//!
//! A text such as `1m/s^2 + 1m/s^2 -> km/s^2` is cut into tokens, the tokens
//! are parsed by the grammar of the expression language, and the derivation
//! is reduced to a program in postfix order for the algebra of quantities:
//! what to push, what to add, what to convert. Running the program is
//! arithmetic on doubles and is left to the caller; everything before that
//! is here.
//!
//! - [`unit`] and [`registry`]: the catalog of units and the spellings by
//!   which a text names them.
//! - [`scanner`] and [`tokenizer`]: from characters to tokens.
//! - [`number`] and [`grammar`]: the terminals and the productions.
//! - [`earley`], [`parser`] and [`semanter`]: the Earley parser over the
//!   grammar.
//! - [`derivation`] and [`program`]: the check of what the parser hands
//!   back, and its reduction.
//! - [`equation`]: evaluation from text to program, with the laws that hold
//!   of it; [`literal`] and [`follow`] hold two more.
//! - [`display`] and [`superscript`]: the rendering of a quantity.

pub mod derivation;
pub mod display;
pub mod earley;
pub mod equation;
pub mod follow;
pub mod grammar;
pub mod literal;
pub mod number;
pub mod parser;
pub mod program;
pub mod registry;
pub mod scanner;
pub mod semanter;
pub mod superscript;
pub mod text;
pub mod tokenizer;
pub mod unit;
