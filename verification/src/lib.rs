//! A minimal Lisp-like language: program text is lexed into tokens,
//! parsed into an immutable expression tree, and evaluated against a
//! stack of scope frames whose free variables resolve at call time.
//!
//! Every piece of the pipeline is specified by a mathematical
//! counterpart over sequences and maps — a recursive tokenizer, a
//! recursive-descent parser, and a budget-indexed interpreter — and the
//! executable code is proved to agree with it. Numbers are IEEE-754
//! doubles carried as raw bit patterns; their arithmetic, parsing and
//! rendering are delegated to a software implementation of IEEE-754
//! behind a small trusted boundary.

pub mod eval;
pub mod interpreter;
pub mod lex;
pub mod num;
pub mod parse;
pub mod types;
