//! Parsing and rewriting of client SQL.
pub mod parts;
pub mod tree;
pub mod blacklist;
pub mod laws;
pub mod parser;
pub mod projection;
pub mod rule_laws;
pub mod rules;
pub mod token_laws;
pub mod tokens;
pub mod vector_insert;
