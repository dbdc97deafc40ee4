//! An expression parser: it turns a stream of lexical tokens into an
//! abstract syntax tree for arithmetic, boolean, string, variable and
//! function-call expressions, by precedence climbing.
//!
//! The `lexer` module holds the token model and the cursor the parser
//! consumes; the `ast` module holds the expression tree and its
//! mathematical model; the `expr` module holds the parser itself,
//! together with the specification it is proved against; the `render`
//! module writes a tree back to surface tokens and proves the round-trip
//! law: rendering and re-parsing reproduces the tree.

pub mod ast;
pub mod expr;
pub mod lexer;
pub mod render;
