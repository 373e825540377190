pub mod token;
pub mod lexer;
pub mod nodes;
pub mod ast;
pub mod semantic;
pub mod parser;
pub mod display;
