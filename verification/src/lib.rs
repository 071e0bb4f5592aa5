pub mod ast;
pub mod cmd;
pub mod grammar;
pub mod laws;
pub mod locality;
pub mod parser;
pub mod render;
pub mod tails;
pub mod token;

pub use ast::{Expr, Ident, Infix, Literal, Precedence, Prefix, Program, Stmt};
pub use cmd::{read_command, Command};
pub use grammar::ErrorKind;
pub use parser::{infix_op, ParseError, Parser};
pub use token::{Token, Tokens};
