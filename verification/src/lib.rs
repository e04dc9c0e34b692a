//! An in-memory key-value store driven by one-line text commands.
//!
//! [`parser`] turns a line of text into a typed [`parser::Statement`];
//! [`store`] holds the key-value pairs and never overwrites one silently.
//! [`words`] is the text handling that the parser rests on.

pub mod parser;
pub mod store;
pub mod words;
