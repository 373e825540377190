//! Petal: a small compiler for the Lotus language: lexer, parser, semantic
//! analysis, three-address IR, a naive register assignment pass and an
//! assembly generator.
pub mod text;
pub mod config;
pub mod front;
pub mod middle;
pub mod back;
