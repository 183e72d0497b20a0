//! The visitors that come with the library.

pub mod json_printer;

pub use json_printer::JsonPrinter;
