//! A verified lexical analyzer for a small C-like scripting language with
//! let-bindings, functions, conditionals, integer arithmetic and boolean
//! literals. The lexer turns source text into a finite stream of tokens,
//! produced one at a time until an end-of-input token is reached.

pub mod chars;
pub mod laws;
pub mod model;
pub mod token;
