use vstd::prelude::*;

pub mod token;
pub mod lexer;
pub mod ast;
pub mod display;
pub mod precedence;
pub mod number;
pub mod parse_spec;
pub mod parser;
