//! A minimal interpreter for a Scheme-like expression language.
//!
//! Source text is tokenized and parsed into a syntax tree ([`ast::Expr`]),
//! which is evaluated against a chain of lexical environment frames
//! ([`env::Env`]) to a dynamically typed runtime value ([`value::Value`]).
//! Every component carries a mathematical model (`Spec*` types), and the
//! executable evaluator is proved equal to a definitional interpreter
//! written as a specification function.

pub mod ast;
pub mod builtins;
pub mod env;
pub mod eval;
pub mod lexer;
pub mod rat;
pub mod render;
pub mod value;
