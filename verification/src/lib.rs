//! A small compiler for arithmetic expressions: a tokenizer, a
//! recursive-descent parser with precedence climbing, and tree-walking
//! visitors that either render the syntax tree as indented text or reduce
//! it to a single integer value.

pub mod ast;
