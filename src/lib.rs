//! Candy: a static checker for a small imperative language with secret
//! types, effect rows and protocol state machines.
//!
//! The pipeline runs from source text to diagnostics: `lexer` turns text
//! into tokens, `parser` builds the syntax tree of `ast`, and `typecheck`
//! reports what breaks the language's rules, all through `diagnostics`.
//! `grammar` states the language's grammar, which the parser is proved to
//! accept exactly; `theorems` proves properties of the checker as a whole.

pub mod ast;
pub mod diagnostics;
pub mod grammar;
pub mod lexer;
pub mod parser;
pub mod recovery;
pub mod theorems;
pub mod typecheck;

