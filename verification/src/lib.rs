use vstd::prelude::*;

pub mod text;
pub mod lexer;
pub mod diagnostics;
pub mod parser;
pub mod semantic;
pub mod stdlib;
pub mod cli;
pub mod symbols;
pub mod project;
pub mod typing;
pub mod grammar;

verus! {

} // verus!
