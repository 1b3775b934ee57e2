//! A parser for genealogical record files: a stream of level, pointer, tag
//! and line-value tokens is folded into a tree of typed records.

pub mod error;
pub mod grammar;
pub mod keyword;
pub mod laws;
pub mod parser;
pub mod text;
pub mod tokenizer;
pub mod tree;
pub mod types;
