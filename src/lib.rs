//! A persistent semantic memory engine: topics, question/answer rows and
//! merged knowledge, with topic resolution by similarity, merge clustering,
//! snapshot reconcile with last-writer-wins import, and the text protocols
//! (filters, resource addresses, parse-error replies, command line) around it.

pub mod cli;
pub mod clock;
pub mod embedding;
pub mod engine;
pub mod filter;
pub mod hook;
pub mod laws;
pub mod merge;
pub mod model;
pub mod persistence;
pub mod server;
pub mod sync;
pub mod text;
pub mod transport;
