//! Reconstruction of a Tangibl program from the tokens seen on a surface.

pub mod ast;
pub mod json;
pub mod parser;
pub mod tangibl;
pub mod tokens;
pub mod visitor;
pub mod visitors;

pub use tangibl::{flow, parse, start, TangiblFlowBuilder, TangiblStartBuilder};
pub use tokens::{Token, TokenCode};
pub use visitor::Visitor;
pub use visitors::JsonPrinter;
