//! A verified front end for a small C-like statement language with the
//! two primitive types `num` and `bool`: a state-machine lexer, a
//! recursive-descent parser with a precedence-driven expression parser, a
//! scoped type checker, and a three-address-code generator.
//!
//! Each phase is an executable function whose result is pinned, value for
//! value, to a specification function over the mathematical view of its
//! input; the driver around the library only moves bytes in and prints
//! the generated code out.

pub mod abstract_syntax_tree;
pub mod code_generation;
pub mod errors;
pub mod expression;
pub mod statement;
pub mod lexeme;
pub mod lexical_analysis;
pub mod semantic_analysis;
pub mod symbol_table;
pub mod syntax_analysis;
pub mod token;
