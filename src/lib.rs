pub mod checker;
pub mod codegen;
pub mod display;
pub mod env;
pub mod expr;
pub mod expr_text;
pub mod laws;
pub mod parser;
pub mod program;
pub mod reader;
pub mod sexpr;
pub mod text;
pub mod types;
