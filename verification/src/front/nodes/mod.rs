pub mod types;
pub mod operator;
pub mod cast;
pub mod expr;
pub mod parameter;
pub mod variables;
pub mod branching;
pub mod loops;
pub mod range;
pub mod body;
pub mod function;
pub mod statement;
pub mod node;
