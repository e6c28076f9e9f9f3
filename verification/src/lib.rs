//! An interpreter for a small line-oriented scripting language.
//!
//! A script defines named functions; each is a list of variable assignments
//! and command lines. Running a script walks the function `main` and yields
//! the commands to launch, with `$name` tokens replaced by the value of the
//! variable `name`.

pub mod ast;
pub mod errors;
pub mod executor;
pub mod lexer;
pub mod parser;
pub mod strmap;
pub mod text;

pub use ast::{Assignment, Function, Program, Statement};
pub use errors::ErrorKind;
pub use executor::{run, run_program, Environment, Invocation};
pub use lexer::{name_valid, LexicalPattern};
pub use parser::{parse_to_ast, ParseState};
pub use strmap::StrMap;
