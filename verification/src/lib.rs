//! A syntax validator for JSON text.
//!
//! The crate checks whether a text is a well-formed JSON document and says
//! where and why it is not. It builds no value tree: a tokenizer classifies
//! the text into tokens without payload, and a recursive-descent checker
//! holds the tokens against the grammar.

pub mod classes;
pub mod descent;
pub mod fault;
pub mod grammar;
pub mod laws;
pub mod lexer;
pub mod number;
pub mod scan;
pub mod stream;
pub mod validator;
