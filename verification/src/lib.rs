//! The front end and evaluation core of a small expression-oriented
//! scripting language: a precedence-driven expression builder that turns a
//! flat parse tree into a typed syntax tree, a structural pattern matcher
//! used by `match` expressions and destructuring assignment, a dynamic
//! value model with type inference and explicit casts, and a scope-stack
//! based evaluator.

pub mod span;
pub mod ast;
pub mod parse_tree;
pub mod ast_parser;
pub mod error;
pub mod expression;
pub mod floats;
pub mod value;
pub mod context;
pub mod matcher;
pub mod text;
pub mod evaluate;
pub mod stdlib;
