//! The logic of a language server for Zeek: what the server knows of the documents that it serves,
//! how it answers the requests of a client, and what it makes of an installation of Zeek.

pub mod completion;
pub mod created;
pub mod document;
pub mod hover;
pub mod lsp;
pub mod parse;
pub mod paths;
pub mod position;
pub mod query;
mod seqs;
pub mod startup;
pub mod symbols;
pub mod text;
pub mod zeek;
