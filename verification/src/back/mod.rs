pub mod target;
pub mod codegen;
