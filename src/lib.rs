//! The core of a JavaScript-to-JavaScript toolchain.
//!
//! - `grammar`: the AST and the operator precedence table.
//! - `lexer`: source text to tokens.
//! - `parser`: a Pratt parser from tokens to a `Program`, with automatic
//!   semicolon insertion at line breaks.
//! - `transformer`: a pass over the tree that turns `let` and `const` into `var`.
//! - `codegen`: the generator, which writes a `Program` back out, pretty or
//!   minified, with parentheses only where precedence needs them.

pub mod grammar;
pub mod codegen;
pub mod lexer;
pub mod parser;
pub mod transformer;
