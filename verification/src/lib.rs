use vstd::prelude::*;

pub mod ast;
pub mod evaluation;
pub mod execute;
pub mod interpreter;
pub mod number;
pub mod grammar;
pub mod parser;
pub mod scoping;
pub mod table;
pub mod token;
pub mod value;
