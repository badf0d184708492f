//! A small compiler for a declarative, tag-based markup language describing
//! entity-component hierarchies. The parser turns a flat token stream of tag
//! syntax into an abstract syntax tree tolerant of embedded host expressions,
//! and the lowerer walks that tree and produces a structured tree of
//! "construct object, attach components, recurse into children" calls.

pub mod codegen;
pub mod laws;
pub mod parse;
pub mod token;
