//! An interpreter for a terse, stack-based expression language: one character
//! is one operation, values are numbers or lazy numeric streams, and
//! higher-order operators (fold, filter, map) take executable blocks as
//! arguments.
//!
//! The crate has three layers:
//! - `token`: the opcode datatype produced by the tokenizer;
//! - `lex`: the tokenizer, which recursively delimits nested blocks;
//! - `value` and `eval`: the value model (numbers and clonable lazy streams)
//!   and the stack-machine evaluator.
//!
//! Numbers are `i64` throughout: the language's literals are hexadecimal
//! integers and its stream constructors enumerate integers, so the whole
//! machine is specified and verified over integer arithmetic (additions,
//! subtractions and multiplications wrap; division by zero is reported as an
//! evaluation error rather than producing a non-integer).

pub mod eval;
pub mod laws;
pub mod lex;
pub mod numfmt;
pub mod token;
pub mod value;
