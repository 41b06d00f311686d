//! A small expression language of named, parametrized algorithms over
//! numbers and booleans, with multi-arm case blocks and pipelines.
//!
//! A source text is normalized ([`normalize`]), split into tokens
//! ([`lexer`], [`token`]), parsed into syntax trees ([`parser`], [`ast`]) and
//! evaluated against a registry of algorithms ([`eval`], [`registry`]).
//! Every step returns a value or an error; none panics. [`repl`] and
//! [`file_processor`] hold what an interactive session and a batch run make
//! of their input, without the terminal and the file system.
//!
//! Numbers are held as binary64 bit patterns ([`number`]). Signs and
//! comparisons are decided on the bits; the operations that round are asked
//! of a numeric kernel, a function that the caller hands to the evaluator.
//! What the evaluator returns is stated relative to that kernel.
//!
//! Each function carries a contract over a mathematical model of its
//! arguments, and the contracts are proved. The laws that relate several
//! functions are proof functions whose names begin with `law_`;
//! [`ternary_law`] follows one of them from the text to the value.

pub mod ast;
pub mod error_handling;
pub mod eval;
pub mod eval_laws;
pub mod file_processor;
pub mod lexer;
pub mod normalize;
pub mod number;
pub mod parser;
pub mod registry;
pub mod repl;
pub mod text;
pub mod ternary_law;
pub mod token;
